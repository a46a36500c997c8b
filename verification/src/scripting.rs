//! Script bookkeeping: the Kotlin components attached to an entity.
use crate::jvm::ScriptError;
use crate::label::without;
use vstd::prelude::*;

verus! {

/// All Kotlin components on one entity, by fully qualified class name.
#[derive(Debug)]
pub struct KotlinComponents {
    /// The fully qualified class names, in the order they were attached.
    pub fqcns: Vec<String>,
}

/// `s` with `x` appended unless it holds `x` already.
pub open spec fn with_name(s: Seq<Seq<char>>, x: Seq<char>) -> Seq<Seq<char>> {
    if s.contains(x) {
        s
    } else {
        s.push(x)
    }
}

/// The class names held, as text.
pub open spec fn names(v: Seq<String>) -> Seq<Seq<char>> {
    v.map_values(|s: String| s@)
}

impl Default for KotlinComponents {
    /// No components.
    fn default() -> (r: Self)
        ensures
            names(r.fqcns@) == Seq::<Seq<char>>::empty(),
    {
        let r = KotlinComponents { fqcns: Vec::new() };
        assert(names(r.fqcns@) =~= Seq::<Seq<char>>::empty());
        r
    }
}

impl KotlinComponents {
    /// Whether the component named `fqcn` is attached.
    pub fn has(&self, fqcn: &str) -> (r: bool)
        ensures
            r == names(self.fqcns@).contains(fqcn@),
    {
        let wanted: String = fqcn.to_owned();
        let mut i: usize = 0;
        while i < self.fqcns.len()
            invariant
                i <= self.fqcns@.len(),
                wanted@ == fqcn@,
                forall|j: int| 0 <= j < i ==> self.fqcns@[j]@ != fqcn@,
            decreases self.fqcns@.len() - i,
        {
            if self.fqcns[i] == wanted {
                assert(names(self.fqcns@)[i as int] == fqcn@);
                return true;
            }
            i += 1;
        }
        proof {
            if names(self.fqcns@).contains(fqcn@) {
                let j = choose|j: int|
                    0 <= j < names(self.fqcns@).len() && names(self.fqcns@)[j] == fqcn@;
                assert(self.fqcns@[j]@ == fqcn@);
            }
        }
        false
    }

    /// Attaches the component named `fqcn` unless it is attached already; it goes last.
    pub fn attach(&mut self, fqcn: &str)
        ensures
            names(final(self).fqcns@) == with_name(names(old(self).fqcns@), fqcn@),
    {
        if !self.has(fqcn) {
            let ghost before = names(self.fqcns@);
            self.fqcns.push(fqcn.to_owned());
            assert(names(self.fqcns@) =~= before.push(fqcn@));
        }
    }

    /// Detaches every component named `fqcn`, keeping the others in order.
    pub fn detach(&mut self, fqcn: &str)
        ensures
            names(final(self).fqcns@) == without(names(old(self).fqcns@), fqcn@),
    {
        let ghost orig = names(self.fqcns@);
        let wanted: String = fqcn.to_owned();
        let mut kept: Vec<String> = Vec::new();
        let mut i: usize = 0;
        while i < self.fqcns.len()
            invariant
                i <= self.fqcns@.len(),
                wanted@ == fqcn@,
                names(self.fqcns@) == orig,
                names(kept@) == without(orig.take(i as int), fqcn@),
            decreases self.fqcns@.len() - i,
        {
            assert(orig.take(i + 1).drop_last() =~= orig.take(i as int));
            if self.fqcns[i] != wanted {
                kept.push(self.fqcns[i].clone());
                assert(names(kept@) =~= without(orig.take(i as int), fqcn@).push(orig[i as int]));
            }
            i += 1;
        }
        assert(orig.take(self.fqcns@.len() as int) =~= orig);
        self.fqcns = kept;
    }
}

/// Law: once a component is attached, the entity has it, and attaching it again changes
/// nothing.
pub proof fn law_attach_then_has(before: Seq<Seq<char>>, fqcn: Seq<char>)
    ensures
        with_name(before, fqcn).contains(fqcn),
        with_name(with_name(before, fqcn), fqcn) == with_name(before, fqcn),
{
    if !before.contains(fqcn) {
        assert(before.push(fqcn)[before.len() as int] == fqcn);
    }
}

/// Law: once a component is detached, the entity no longer has it, and the others stay.
pub proof fn law_detach_then_not_has(before: Seq<Seq<char>>, fqcn: Seq<char>, other: Seq<char>)
    ensures
        !without(before, fqcn).contains(fqcn),
        other != fqcn ==> (without(before, fqcn).contains(other) == before.contains(other)),
{
    crate::label::lemma_without_contains(before, fqcn, fqcn);
    crate::label::lemma_without_contains(before, fqcn, other);
}

/// Law: attaching never lists a component twice.
pub proof fn law_attach_keeps_names_unique(before: Seq<Seq<char>>, fqcn: Seq<char>)
    requires
        before.no_duplicates(),
    ensures
        with_name(before, fqcn).no_duplicates(),
{
    if !before.contains(fqcn) {
        let after = before.push(fqcn);
        assert forall|i: int, j: int| 0 <= i < after.len() && 0 <= j < after.len() && i != j implies after[i] != after[j] by {
            if i < before.len() && j < before.len() {
            } else if i < before.len() {
                assert(before.contains(before[i]));
            } else {
                assert(before.contains(before[j]));
            }
        }
    }
}

/// Groups the script hosts (JVM and native) for registration.
pub struct ScriptManager;

impl ScriptManager {
    /// Registers the components that scripts define; nothing needs registering yet.
    pub fn register_components() -> (r: Result<(), ScriptError>)
        ensures
            r is Ok,
    {
        Ok(())
    }

    /// Registers the callbacks that scripts define; nothing needs registering yet.
    pub fn register_callbacks() -> (r: Result<(), ScriptError>)
        ensures
            r is Ok,
    {
        Ok(())
    }
}

/// Reading and writing the last error message of a script host.
pub trait LastErrorMessage {
    /// The last error message, if an error has occurred.
    fn get_last_error(&self) -> Option<String>;

    /// Records an error message.
    fn set_last_error(&self, err_msg: String) -> Result<(), ScriptError>;
}

} // verus!
