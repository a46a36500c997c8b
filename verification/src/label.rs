//! Entity labels: the names by which a scene refers to its entities.
use vstd::prelude::*;

verus! {

/// The name of an entity inside a scene.
#[derive(Debug, Hash)]
pub struct Label(pub String);

impl View for Label {
    type V = Seq<char>;

    open spec fn view(&self) -> Seq<char> {
        self.0@
    }
}

impl Clone for Label {
    fn clone(&self) -> (r: Self)
        ensures
            r@ == self@,
    {
        Label(self.0.clone())
    }
}

impl PartialEq for Label {
    fn eq(&self, other: &Self) -> (r: bool) {
        self.0 == other.0
    }
}

impl vstd::std_specs::cmp::PartialEqSpecImpl for Label {
    open spec fn obeys_eq_spec() -> bool {
        true
    }

    open spec fn eq_spec(&self, other: &Self) -> bool {
        self@ == other@
    }
}

impl Eq for Label {}

impl Label {
    /// Creates a label holding `value`.
    pub fn new(value: String) -> (r: Self)
        ensures
            r@ == value@,
    {
        Label(value)
    }

    /// The text of the label.
    pub fn as_str(&self) -> (r: &str)
        ensures
            r@ == self@,
    {
        self.0.as_str()
    }

    /// The underlying string, for editing in place.
    pub fn as_mut_string(&mut self) -> (r: &mut String)
        ensures
            *r == old(self).0,
            final(self).0 == *final(r),
    {
        &mut self.0
    }

    /// Replaces the text of the label.
    pub fn set(&mut self, value: String)
        ensures
            final(self)@ == value@,
    {
        self.0 = value;
    }

    /// The underlying string.
    pub fn into_inner(self) -> (r: String)
        ensures
            r@ == self@,
    {
        self.0
    }

    /// Whether the label is the empty text.
    pub fn is_empty(&self) -> (r: bool)
        ensures
            r == (self@.len() == 0),
    {
        self.0.as_str().is_empty()
    }
}

impl Default for Label {
    /// The label of an entity that was never named: `No Label`.
    fn default() -> (r: Self)
        ensures
            r@ == "No Label"@,
    {
        Label("No Label".to_owned())
    }
}

impl From<String> for Label {
    fn from(value: String) -> (r: Self) {
        Label(value)
    }
}

impl vstd::std_specs::convert::FromSpecImpl<String> for Label {
    open spec fn obeys_from_spec() -> bool {
        true
    }

    open spec fn from_spec(v: String) -> Self {
        Label(v)
    }
}

/// The texts of a sequence of labels.
pub open spec fn texts(s: Seq<Label>) -> Seq<Seq<char>> {
    s.map_values(|l: Label| l@)
}

/// `s` with every occurrence of `x` dropped, the rest kept in order.
pub open spec fn without(s: Seq<Seq<char>>, x: Seq<char>) -> Seq<Seq<char>>
    decreases s.len(),
{
    if s.len() == 0 {
        s
    } else if s.last() == x {
        without(s.drop_last(), x)
    } else {
        without(s.drop_last(), x).push(s.last())
    }
}

/// What `without` keeps: exactly the elements that differ from `x`.
pub proof fn lemma_without_contains(s: Seq<Seq<char>>, x: Seq<char>, y: Seq<char>)
    ensures
        without(s, x).contains(y) <==> (s.contains(y) && y != x),
    decreases s.len(),
{
    if s.len() > 0 {
        lemma_without_contains(s.drop_last(), x, y);
        let d = s.drop_last();
        if d.contains(y) {
            let i = choose|i: int| 0 <= i < d.len() && d[i] == y;
            assert(s[i] == y);
        }
        if s.contains(y) && s.last() != y {
            let i = choose|i: int| 0 <= i < s.len() && s[i] == y;
            assert(d[i] == y);
        }
        if without(s, x).contains(y) && s.last() != x {
            let w = without(d, x);
            let i = choose|i: int| 0 <= i < w.push(s.last()).len() && w.push(s.last())[i] == y;
            if i < w.len() {
                assert(w[i] == y);
            }
        }
        if s.last() != x && s.last() == y {
            assert(without(s, x)[without(d, x).len() as int] == y);
        }
        if s.last() != x && without(d, x).contains(y) {
            let w = without(d, x);
            let i = choose|i: int| 0 <= i < w.len() && w[i] == y;
            assert(without(s, x)[i] == y);
        }
    }
}

/// `without` keeps a sequence free of duplicates.
pub proof fn lemma_without_no_duplicates(s: Seq<Seq<char>>, x: Seq<char>)
    requires
        s.no_duplicates(),
    ensures
        without(s, x).no_duplicates(),
    decreases s.len(),
{
    if s.len() > 0 {
        let d = s.drop_last();
        assert(d.no_duplicates()) by {
            assert forall|i: int, j: int| 0 <= i < d.len() && 0 <= j < d.len() && i != j implies d[i] != d[j] by {
                assert(s[i] == d[i] && s[j] == d[j]);
            }
        }
        lemma_without_no_duplicates(d, x);
        if s.last() != x {
            lemma_without_contains(d, x, s.last());
            if d.contains(s.last()) {
                let i = choose|i: int| 0 <= i < d.len() && d[i] == s.last();
                assert(s[i] == s[s.len() - 1]);
            }
            let w = without(d, x);
            assert forall|i: int, j: int| 0 <= i < w.push(s.last()).len() && 0 <= j < w.push(s.last()).len() && i != j implies w.push(s.last())[i] != w.push(s.last())[j] by {
                if i < w.len() && j < w.len() {
                } else if i < w.len() {
                    assert(w.contains(w[i]));
                } else {
                    assert(w.contains(w[j]));
                }
            }
        }
    }
}

/// Removes every label equal to `x` from `v`, keeping the order of the rest.
pub fn remove_label(v: &mut Vec<Label>, x: &Label)
    ensures
        texts(final(v)@) == without(texts(old(v)@), x@),
{
    let ghost orig = texts(v@);
    let mut kept: Vec<Label> = Vec::new();
    let mut i: usize = 0;
    while i < v.len()
        invariant
            i <= v@.len(),
            texts(v@) == orig,
            texts(kept@) == without(orig.take(i as int), x@),
        decreases v@.len() - i,
    {
        assert(orig.take(i + 1).drop_last() =~= orig.take(i as int));
        if v[i].0 != x.0 {
            kept.push(v[i].clone());
            assert(texts(kept@) =~= without(orig.take(i as int), x@).push(orig[i as int]));
        }
        i += 1;
    }
    assert(orig.take(v@.len() as int) =~= orig);
    *v = kept;
}

/// Whether `x` occurs in `v`.
pub fn contains_label(v: &Vec<Label>, x: &str) -> (r: bool)
    ensures
        r == texts(v@).contains(x@),
{
    let xs: String = x.to_owned();
    let mut i: usize = 0;
    while i < v.len()
        invariant
            i <= v@.len(),
            xs@ == x@,
            forall|j: int| 0 <= j < i ==> v@[j]@ != x@,
        decreases v@.len() - i,
    {
        if v[i].0 == xs {
            assert(texts(v@)[i as int] == x@);
            return true;
        }
        i += 1;
    }
    proof {
        if texts(v@).contains(x@) {
            let j = choose|j: int| 0 <= j < texts(v@).len() && texts(v@)[j] == x@;
            assert(v@[j]@ == x@);
        }
    }
    false
}

} // verus!
