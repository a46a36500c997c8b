//! Hosting the JVM that runs Kotlin scripts: launch options, the state of the host objects,
//! and the calls made on the script system manager.
use crate::order::{sort_strings, sorted_texts, strings, utf8};
use crate::paths::{join, path_join};
use crate::text::{decimal, push_decimal, push_str, str_eq};
use vstd::prelude::*;
use vstd::string::StringSliceAdditionalSpecFns;

verus! {

/// How the engine is running, as far as scripting cares.
#[derive(Debug, Clone, Copy, PartialEq, Eq, Structural)]
pub enum RuntimeMode {
    Unset,
    Editor,
    PlayMode,
    Runtime,
}

impl Default for RuntimeMode {
    fn default() -> (r: Self)
        ensures
            r == RuntimeMode::Unset,
    {
        RuntimeMode::Unset
    }
}

/// What `str::trim` gives for a text.
pub uninterp spec fn trimmed(s: Seq<char>) -> Seq<char>;

/// `s` without leading and trailing white space (`str::trim`).
#[verifier::external_body]
pub(crate) fn trim(s: &str) -> (r: &str)
    ensures
        r@ == trimmed(s@),
{
    s.trim()
}

/// The texts of `parts` with `sep` between neighbours.
pub open spec fn join_texts(parts: Seq<Seq<char>>, sep: Seq<char>) -> Seq<char>
    decreases parts.len(),
{
    if parts.len() == 0 {
        Seq::empty()
    } else if parts.len() == 1 {
        parts[0]
    } else {
        join_texts(parts.drop_last(), sep) + sep + parts.last()
    }
}

/// Joins the texts of `parts`, putting `sep` between neighbours.
pub fn join_with(parts: &Vec<String>, sep: &str) -> (r: String)
    ensures
        r@ == join_texts(strings(parts@), sep@),
{
    let ghost pv = strings(parts@);
    let mut s = String::new();
    let mut i: usize = 0;
    while i < parts.len()
        invariant
            i <= parts@.len(),
            pv == strings(parts@),
            s@ == join_texts(pv.take(i as int), sep@),
        decreases parts@.len() - i,
    {
        assert(pv.take(i + 1).drop_last() =~= pv.take(i as int));
        if i > 0 {
            push_str(&mut s, sep);
        } else {
            assert(s@ =~= Seq::<char>::empty());
        }
        push_str(&mut s, parts[i].as_str());
        proof {
            if i == 0 {
                assert(s@ =~= pv.take(1)[0]);
            }
        }
        i += 1;
    }
    assert(pv.take(parts@.len() as int) =~= pv);
    s
}

/// Whether the host library JAR on disk must be rewritten: there is no stored digest, or the
/// stored one (trimmed) differs from the digest of the embedded JAR.
pub fn host_jar_needs_update(stored: &Option<String>, embedded_digest: &[u8]) -> (r: bool)
    ensures
        r == match stored {
            None => true,
            Some(s) => utf8(trimmed(s@)) != embedded_digest@,
        },
{
    match stored {
        None => true,
        Some(s) => {
            let t = trim(s.as_str());
            let b = t.as_bytes();
            assert(b@ == utf8(t@));
            if b.len() != embedded_digest.len() {
                return true;
            }
            let mut i: usize = 0;
            while i < b.len()
                invariant
                    i <= b@.len(),
                    b@.len() == embedded_digest@.len(),
                    b@ == utf8(trimmed(s@)),
                    *stored == Some(*s),
                    forall|j: int| 0 <= j < i ==> b@[j] == embedded_digest@[j],
                decreases b@.len() - i,
            {
                if b[i] != embedded_digest[i] {
                    assert(b@[i as int] != embedded_digest@[i as int]);
                    return true;
                }
                i += 1;
            }
            assert(b@ =~= embedded_digest@);
            false
        },
    }
}

/// The separator between class-path entries on the operating system `os`.
pub open spec fn path_list_separator(os: Seq<char>) -> Seq<char> {
    if os == "windows"@ {
        ";"@
    } else {
        ":"@
    }
}

/// The separator between class-path entries on `os` (as `std::env::consts::OS` names it).
pub fn list_separator(os: &str) -> (r: &'static str)
    ensures
        r@ == path_list_separator(os@),
{
    if str_eq(os, "windows") {
        ";"
    } else {
        ":"
    }
}

/// The JVM class path: the JARs found, sorted and joined by `sep`; the host JAR alone when
/// none was found.
pub fn build_classpath(jar_paths: Vec<String>, host_jar: &str, sep: &str) -> (r: String)
    ensures
        jar_paths@.len() == 0 ==> r@ == host_jar@,
        jar_paths@.len() > 0 ==> exists|sorted: Seq<Seq<char>>|
            sorted_texts(sorted) && sorted.to_multiset() == strings(jar_paths@).to_multiset()
                && r@ == join_texts(sorted, sep@),
{
    if jar_paths.len() == 0 {
        host_jar.to_owned()
    } else {
        let sorted = sort_strings(jar_paths);
        join_with(&sorted, sep)
    }
}

/// The directories searched for native libraries after the executable's own, on `os`.
pub open spec fn default_library_dirs(os: Seq<char>) -> Seq<Seq<char>> {
    if os == "windows"@ {
        seq!["C:\\Windows\\System32"@, "C:\\Windows\\SysWOW64"@]
    } else if os == "macos"@ {
        seq![
            "/Library/Java/Extensions"@,
            "/System/Library/Java/Extensions"@,
            "/usr/local/lib"@,
            "/usr/lib"@,
            "."@,
        ]
    } else {
        seq!["/usr/java/packages/lib"@, "/usr/lib64"@, "/lib64"@, "/lib"@, "/usr/lib"@, "."@]
    }
}

/// The file name of the engine's native library on `os`.
pub open spec fn core_library_name(os: Seq<char>) -> Seq<char> {
    if os == "windows"@ {
        "eucalyptus_core.dll"@
    } else if os == "macos"@ {
        "libeucalyptus_core.dylib"@
    } else {
        "libeucalyptus_core.so"@
    }
}

/// The options the JVM is launched with.
///
/// With `external` options, those alone. Otherwise the class path, and, when `native_paths`
/// is set, the native library path (the executable's directory `exe_dir` followed by the
/// platform's default directories) and the location of the engine's native library.
pub open spec fn spec_jvm_options(
    external: Option<Seq<char>>,
    classpath: Seq<char>,
    exe_dir: Seq<char>,
    os: Seq<char>,
    native_paths: bool,
) -> Seq<Seq<char>> {
    match external {
        Some(e) => seq![e],
        None => {
            let cp = "-Djava.class.path="@ + classpath;
            if native_paths {
                let sep = path_list_separator(os);
                let lib_path = "-Djava.library.path="@ + exe_dir + sep + join_texts(
                    default_library_dirs(os),
                    sep,
                );
                let core = "-Deucalyptus.core.lib="@ + path_join(exe_dir, core_library_name(os));
                seq![cp, lib_path, core]
            } else {
                seq![cp]
            }
        },
    }
}

/// Joining `a` in front of a non-empty list puts `sep` between `a` and the rest.
proof fn lemma_join_texts_cons(a: Seq<char>, rest: Seq<Seq<char>>, sep: Seq<char>)
    requires
        rest.len() > 0,
    ensures
        join_texts(seq![a] + rest, sep) == a + sep + join_texts(rest, sep),
    decreases rest.len(),
{
    let s = seq![a] + rest;
    assert(s.drop_last() =~= seq![a] + rest.drop_last());
    assert(s.last() == rest.last());
    assert(join_texts(s, sep) == join_texts(s.drop_last(), sep) + sep + s.last());
    if rest.len() == 1 {
        assert(seq![a] + rest.drop_last() =~= seq![a]);
        assert(seq![a][0] == a);
        assert(join_texts(seq![a], sep) == a);
        assert(join_texts(rest, sep) == rest[0]);
        assert(rest.last() == rest[0]);
    } else {
        lemma_join_texts_cons(a, rest.drop_last(), sep);
        assert(join_texts(rest, sep) == join_texts(rest.drop_last(), sep) + sep + rest.last());
        assert(a + sep + join_texts(rest.drop_last(), sep) + sep + rest.last() =~= a + sep + (
        join_texts(rest.drop_last(), sep) + sep + rest.last()));
    }
}

/// Law: with native paths and no external options, the options are the class path, then
/// `-Djava.library.path=` followed by the executable's directory and the platform's default
/// library directories separated by `;` on Windows and `:` elsewhere (the separator that
/// `list_separator` gives), then the location of the engine's native library.
pub proof fn law_library_path_option(classpath: Seq<char>, exe_dir: Seq<char>, os: Seq<char>)
    ensures
        ({
            let sep = if os == "windows"@ {
                ";"@
            } else {
                ":"@
            };
            let opts = spec_jvm_options(None, classpath, exe_dir, os, true);
            &&& opts.len() == 3
            &&& opts[0] == "-Djava.class.path="@ + classpath
            &&& opts[1] == "-Djava.library.path="@ + join_texts(
                seq![exe_dir] + default_library_dirs(os),
                sep,
            )
            &&& path_list_separator(os) == sep
        }),
{
    let sep = path_list_separator(os);
    lemma_join_texts_cons(exe_dir, default_library_dirs(os), sep);
    assert("-Djava.library.path="@ + exe_dir + sep + join_texts(default_library_dirs(os), sep)
        =~= "-Djava.library.path="@ + (exe_dir + sep + join_texts(default_library_dirs(os), sep)));
}

fn concat(a: &str, b: &str) -> (r: String)
    ensures
        r@ == a@ + b@,
{
    let mut s = a.to_owned();
    push_str(&mut s, b);
    s
}

/// The options the JVM is launched with; see [`spec_jvm_options`].
pub fn jvm_options(
    external: Option<String>,
    classpath: &str,
    exe_dir: &str,
    os: &str,
    native_paths: bool,
) -> (r: Vec<String>)
    ensures
        strings(r@) == spec_jvm_options(
            match external {
                Some(e) => Some(e@),
                None => None,
            },
            classpath@,
            exe_dir@,
            os@,
            native_paths,
        ),
{
    let mut out: Vec<String> = Vec::new();
    match external {
        Some(e) => {
            out.push(e);
            assert(strings(out@) =~= seq![out@[0]@]);
        },
        None => {
            out.push(concat("-Djava.class.path=", classpath));
            if native_paths {
                let sep = list_separator(os);
                let mut dirs: Vec<String> = Vec::new();
                let lib_name: &str;
                if str_eq(os, "windows") {
                    dirs.push("C:\\Windows\\System32".to_owned());
                    dirs.push("C:\\Windows\\SysWOW64".to_owned());
                    lib_name = "eucalyptus_core.dll";
                } else if str_eq(os, "macos") {
                    dirs.push("/Library/Java/Extensions".to_owned());
                    dirs.push("/System/Library/Java/Extensions".to_owned());
                    dirs.push("/usr/local/lib".to_owned());
                    dirs.push("/usr/lib".to_owned());
                    dirs.push(".".to_owned());
                    lib_name = "libeucalyptus_core.dylib";
                } else {
                    dirs.push("/usr/java/packages/lib".to_owned());
                    dirs.push("/usr/lib64".to_owned());
                    dirs.push("/lib64".to_owned());
                    dirs.push("/lib".to_owned());
                    dirs.push("/usr/lib".to_owned());
                    dirs.push(".".to_owned());
                    lib_name = "libeucalyptus_core.so";
                }
                assert(strings(dirs@) =~= default_library_dirs(os@));
                let mut lib_path = concat("-Djava.library.path=", exe_dir);
                push_str(&mut lib_path, sep);
                let joined = join_with(&dirs, sep);
                push_str(&mut lib_path, joined.as_str());
                out.push(lib_path);
                let core_path = join(exe_dir, lib_name);
                out.push(concat("-Deucalyptus.core.lib=", core_path.as_str()));
            }
            assert(strings(out@) =~= spec_jvm_options(None, classpath@, exe_dir@, os@, native_paths));
        },
    }
    out
}

/// The first port probed for the JDWP debugger agent.
pub const JDWP_FIRST_PORT: u16 = 6751;

/// The port after the last one probed for the JDWP debugger agent.
pub const JDWP_END_PORT: u16 = 6771;

/// The JVM option that starts the JDWP debugger agent, in debug builds of scripting: only in
/// play mode or at runtime, and only when a free port was found (`first_free_port`, the first
/// free port from [`JDWP_FIRST_PORT`] up to [`JDWP_END_PORT`]). The JVM waits for the debugger
/// (`suspend=y`) whenever the wait-for-debugger setting is present, whatever its value.
pub open spec fn spec_jdwp_option(
    mode: Option<RuntimeMode>,
    first_free_port: Option<u16>,
    await_jdb: Option<bool>,
) -> Option<Seq<char>> {
    match mode {
        Some(RuntimeMode::PlayMode) | Some(RuntimeMode::Runtime) => match first_free_port {
            Some(p) => Some(
                "-agentlib:jdwp=transport=dt_socket,server=y,suspend="@ + (if await_jdb is Some {
                    "y"@
                } else {
                    "n"@
                }) + ",address=*:"@ + decimal(p as nat),
            ),
            None => None,
        },
        _ => None,
    }
}

/// The JVM option that starts the JDWP debugger agent; see [`spec_jdwp_option`].
pub fn jdwp_option(
    mode: Option<RuntimeMode>,
    first_free_port: Option<u16>,
    await_jdb: Option<bool>,
) -> (r: Option<String>)
    ensures
        match spec_jdwp_option(mode, first_free_port, await_jdb) {
            Some(t) => r matches Some(o) && o@ == t,
            None => r is None,
        },
{
    match mode {
        Some(RuntimeMode::PlayMode) | Some(RuntimeMode::Runtime) => match first_free_port {
            Some(p) => {
                let mut o = "-agentlib:jdwp=transport=dt_socket,server=y,suspend=".to_owned();
                if await_jdb.is_some() {
                    push_str(&mut o, "y");
                } else {
                    push_str(&mut o, "n");
                }
                push_str(&mut o, ",address=*:");
                push_decimal(&mut o, p as u64);
                Some(o)
            },
            None => None,
        },
        _ => None,
    }
}

/// The JNI signature of a constructor taking `n` `long` arguments: `(` then `J` n times, then
/// `)V`.
pub open spec fn long_args_signature(n: nat) -> Seq<char> {
    "("@ + Seq::new(n, |i: int| 'J') + ")V"@
}

/// Builds the JNI signature of a constructor taking `n` `long` arguments.
pub fn context_signature(n: usize) -> (r: String)
    ensures
        r@ == long_args_signature(n as nat),
{
    let mut s = "(".to_owned();
    let mut i: usize = 0;
    while i < n
        invariant
            i <= n,
            s@ == "("@ + Seq::new(i as nat, |k: int| 'J'),
        decreases n - i,
    {
        crate::text::push_char(&mut s, 'J');
        assert(s@ =~= "("@ + Seq::new((i + 1) as nat, |k: int| 'J'));
        i += 1;
    }
    push_str(&mut s, ")V");
    s
}

/// The JVM class that receives script log output: the editor console's socket writer when
/// running under the editor (or its play mode) with the console reachable, standard output
/// otherwise.
pub fn log_writer_class(mode: Option<RuntimeMode>, console_reachable: bool) -> (r: &'static str)
    ensures
        r@ == (if (mode == Some(RuntimeMode::Editor) || mode == Some(RuntimeMode::PlayMode))
            && console_reachable {
            "com.dropbear.logging.SocketWriter"@
        } else {
            "com.dropbear.logging.StdoutWriter"@
        }),
{
    match mode {
        Some(RuntimeMode::Editor) | Some(RuntimeMode::PlayMode) => {
            if console_reachable {
                "com.dropbear.logging.SocketWriter"
            } else {
                "com.dropbear.logging.StdoutWriter"
            }
        },
        _ => "com.dropbear.logging.StdoutWriter",
    }
}

/// The handle held after adopting: the one already held, else the freshly created one.
pub open spec fn keep_or(held: Option<u64>, fresh: u64) -> Option<u64> {
    match held {
        Some(h) => Some(h),
        None => Some(fresh),
    }
}

/// Law: initialisation is idempotent: once the created objects are adopted, every object is
/// held (so a second plan creates nothing), and adopting again keeps the objects held.
pub proof fn law_init_idempotent(held: Option<u64>, fresh: u64, fresh_again: u64)
    ensures
        keep_or(held, fresh) is Some,
        keep_or(keep_or(held, fresh), fresh_again) == keep_or(held, fresh),
{
}

/// Why a scripting request could not be made.
#[derive(Debug)]
pub enum ScriptError {
    /// The script system manager does not exist yet; the message says what was attempted.
    NotInitialised { message: String },
}

/// A method of the JVM-side script system manager, with its arguments.
#[derive(Debug)]
pub enum SystemManagerCall {
    ReloadJar { jar_path: String },
    LoadSystemsForTag { tag: String },
    LoadSystemsForEntities { tag: String, entity_ids: Vec<i64> },
    CollisionEvent { tag: String, entity_id: i64 },
    UnloadSystemsByTag { tag: String },
    DestroySystemsByTag { tag: String },
    UnloadAllSystems,
    GetSystemCount { tag: String },
    HasSystemsForTag { tag: String },
    GetTotalSystemCount,
}

impl SystemManagerCall {
    /// The name of the JVM method.
    pub fn method_name(&self) -> (r: &'static str)
        ensures
            r@ == match *self {
                SystemManagerCall::ReloadJar { .. } => "reloadJar"@,
                SystemManagerCall::LoadSystemsForTag { .. } => "loadSystemsForTag"@,
                SystemManagerCall::LoadSystemsForEntities { .. } => "loadSystemsForEntities"@,
                SystemManagerCall::CollisionEvent { .. } => "collisionEvent"@,
                SystemManagerCall::UnloadSystemsByTag { .. } => "unloadSystemsByTag"@,
                SystemManagerCall::DestroySystemsByTag { .. } => "destroySystemsByTag"@,
                SystemManagerCall::UnloadAllSystems => "unloadAllSystems"@,
                SystemManagerCall::GetSystemCount { .. } => "getSystemCount"@,
                SystemManagerCall::HasSystemsForTag { .. } => "hasSystemsForTag"@,
                SystemManagerCall::GetTotalSystemCount => "getTotalSystemCount"@,
            },
    {
        match self {
            SystemManagerCall::ReloadJar { .. } => "reloadJar",
            SystemManagerCall::LoadSystemsForTag { .. } => "loadSystemsForTag",
            SystemManagerCall::LoadSystemsForEntities { .. } => "loadSystemsForEntities",
            SystemManagerCall::CollisionEvent { .. } => "collisionEvent",
            SystemManagerCall::UnloadSystemsByTag { .. } => "unloadSystemsByTag",
            SystemManagerCall::DestroySystemsByTag { .. } => "destroySystemsByTag",
            SystemManagerCall::UnloadAllSystems => "unloadAllSystems",
            SystemManagerCall::GetSystemCount { .. } => "getSystemCount",
            SystemManagerCall::HasSystemsForTag { .. } => "hasSystemsForTag",
            SystemManagerCall::GetTotalSystemCount => "getTotalSystemCount",
        }
    }

    /// The JNI signature of the JVM method.
    pub fn signature(&self) -> (r: &'static str)
        ensures
            r@ == match *self {
                SystemManagerCall::ReloadJar { .. } => "(Ljava/lang/String;)V"@,
                SystemManagerCall::LoadSystemsForTag { .. } => "(Ljava/lang/String;)V"@,
                SystemManagerCall::LoadSystemsForEntities { .. } => "(Ljava/lang/String;[J)V"@,
                SystemManagerCall::CollisionEvent { .. } =>
                    "(Ljava/lang/String;JLcom/dropbear/physics/CollisionEvent;)V"@,
                SystemManagerCall::UnloadSystemsByTag { .. } => "(Ljava/lang/String;)V"@,
                SystemManagerCall::DestroySystemsByTag { .. } => "(Ljava/lang/String;)V"@,
                SystemManagerCall::UnloadAllSystems => "()V"@,
                SystemManagerCall::GetSystemCount { .. } => "(Ljava/lang/String;)I"@,
                SystemManagerCall::HasSystemsForTag { .. } => "(Ljava/lang/String;)Z"@,
                SystemManagerCall::GetTotalSystemCount => "()I"@,
            },
    {
        match self {
            SystemManagerCall::ReloadJar { .. } => "(Ljava/lang/String;)V",
            SystemManagerCall::LoadSystemsForTag { .. } => "(Ljava/lang/String;)V",
            SystemManagerCall::LoadSystemsForEntities { .. } => "(Ljava/lang/String;[J)V",
            SystemManagerCall::CollisionEvent { .. } =>
                "(Ljava/lang/String;JLcom/dropbear/physics/CollisionEvent;)V",
            SystemManagerCall::UnloadSystemsByTag { .. } => "(Ljava/lang/String;)V",
            SystemManagerCall::DestroySystemsByTag { .. } => "(Ljava/lang/String;)V",
            SystemManagerCall::UnloadAllSystems => "()V",
            SystemManagerCall::GetSystemCount { .. } => "(Ljava/lang/String;)I",
            SystemManagerCall::HasSystemsForTag { .. } => "(Ljava/lang/String;)Z",
            SystemManagerCall::GetTotalSystemCount => "()I",
        }
    }
}

/// A call to make on the system manager object held under the handle `manager`.
#[derive(Debug)]
pub struct SystemCall {
    pub manager: u64,
    pub call: SystemManagerCall,
}

/// Which host objects must be created when the scripting context is initialised.
#[derive(Debug, Clone, Copy, PartialEq, Eq, Structural)]
pub struct InitPlan {
    pub create_native_engine: bool,
    pub create_engine: bool,
    pub create_system_manager: bool,
}

/// The state of the scripting host: the JVM objects it holds (by the handle under which the
/// host keeps each global reference) and the JAR of the game's scripts.
#[derive(Debug)]
pub struct JavaContext {
    native_engine_instance: Option<u64>,
    dropbear_engine_class: Option<u64>,
    system_manager_instance: Option<u64>,
    /// The JAR holding the game's scripts.
    jar_path: String,
}

/// The error of a request made before the system manager exists.
pub open spec fn missing_manager(message: Seq<char>, r: ScriptError) -> bool {
    r matches ScriptError::NotInitialised { message: m } && m@ == message
}

/// The text of the error of a request made before the system manager exists.
pub open spec fn not_initialised_text(when: Seq<char>) -> Seq<char> {
    "SystemManager not initialised "@ + when
}

fn not_initialised(when: &str, tag: &str) -> (r: ScriptError)
    ensures
        missing_manager(not_initialised_text(when@ + tag@), r),
{
    let mut m = "SystemManager not initialised ".to_owned();
    push_str(&mut m, when);
    push_str(&mut m, tag);
    assert(m@ =~= not_initialised_text(when@ + tag@));
    ScriptError::NotInitialised { message: m }
}

impl JavaContext {
    /// A context that holds no host objects yet and no script JAR.
    pub fn with_no_handles() -> (r: Self)
        ensures
            r.native_engine() is None,
            r.engine() is None,
            r.system_manager() is None,
            r.jar() == Seq::<char>::empty(),
    {
        JavaContext {
            native_engine_instance: None,
            dropbear_engine_class: None,
            system_manager_instance: None,
            jar_path: String::new(),
        }
    }

    /// The JAR holding the game's scripts, as text.
    pub closed spec fn jar(&self) -> Seq<char> {
        self.jar_path@
    }

    /// The handle of the native engine object, if created.
    pub closed spec fn native_engine(&self) -> Option<u64> {
        self.native_engine_instance
    }

    /// The handle of the engine object, if created.
    pub closed spec fn engine(&self) -> Option<u64> {
        self.dropbear_engine_class
    }

    /// The handle of the system manager object, if created.
    pub closed spec fn system_manager(&self) -> Option<u64> {
        self.system_manager_instance
    }

    /// The handles held: native engine, engine, system manager.
    pub fn handles(&self) -> (r: (Option<u64>, Option<u64>, Option<u64>))
        ensures
            r == (self.native_engine(), self.engine(), self.system_manager()),
    {
        (self.native_engine_instance, self.dropbear_engine_class, self.system_manager_instance)
    }

    /// Which objects initialisation must create: those not held yet.
    pub fn init_plan(&self) -> (r: InitPlan)
        ensures
            r.create_native_engine == (self.native_engine() is None),
            r.create_engine == (self.engine() is None),
            r.create_system_manager == (self.system_manager() is None),
    {
        InitPlan {
            create_native_engine: self.native_engine_instance.is_none(),
            create_engine: self.dropbear_engine_class.is_none(),
            create_system_manager: self.system_manager_instance.is_none(),
        }
    }

    /// Records the objects created by initialisation; objects already held are kept.
    pub fn adopt_handles(&mut self, native_engine: u64, engine: u64, system_manager: u64)
        ensures
            final(self).native_engine() == keep_or(old(self).native_engine(), native_engine),
            final(self).engine() == keep_or(old(self).engine(), engine),
            final(self).system_manager() == keep_or(old(self).system_manager(), system_manager),
            final(self).jar() == old(self).jar(),
    {
        if self.native_engine_instance.is_none() {
            self.native_engine_instance = Some(native_engine);
        }
        if self.dropbear_engine_class.is_none() {
            self.dropbear_engine_class = Some(engine);
        }
        if self.system_manager_instance.is_none() {
            self.system_manager_instance = Some(system_manager);
        }
    }

    /// Drops every host object held.
    pub fn clear_engine(&mut self) -> (r: Result<(), ScriptError>)
        ensures
            r is Ok,
            final(self).native_engine() is None,
            final(self).engine() is None,
            final(self).system_manager() is None,
            final(self).jar() == old(self).jar(),
    {
        self.native_engine_instance = None;
        self.dropbear_engine_class = None;
        self.system_manager_instance = None;
        Ok(())
    }

    /// Asks the system manager to reload the script JAR.
    pub fn reload(&mut self) -> (r: Result<SystemCall, ScriptError>)
        ensures
            *final(self) == *old(self),
            match old(self).system_manager() {
                Some(m) => r matches Ok(c) && c.manager == m && (c.call matches SystemManagerCall::ReloadJar { jar_path } && jar_path@ == old(self).jar()),
                None => r matches Err(e) && missing_manager("SystemManager not initialised for reload."@, e),
            },
    {
        match self.system_manager_instance {
            Some(m) => Ok(SystemCall { manager: m, call: SystemManagerCall::ReloadJar { jar_path: self.jar_path.clone() } }),
            None => Err(ScriptError::NotInitialised { message: "SystemManager not initialised for reload.".to_owned() }),
        }
    }

    /// Asks the system manager to load the systems for `tag`.
    pub fn load_systems_for_tag(&mut self, tag: &str) -> (r: Result<SystemCall, ScriptError>)
        ensures
            *final(self) == *old(self),
            match old(self).system_manager() {
                Some(m) => r matches Ok(c) && c.manager == m && (c.call matches SystemManagerCall::LoadSystemsForTag { tag: t } && t@ == tag@),
                None => r matches Err(e) && missing_manager(not_initialised_text("when loading systems for tag: "@ + tag@), e),
            },
    {
        match self.system_manager_instance {
            Some(m) => Ok(SystemCall { manager: m, call: SystemManagerCall::LoadSystemsForTag { tag: tag.to_owned() } }),
            None => Err(not_initialised("when loading systems for tag: ", tag)),
        }
    }

    /// Asks the system manager to load the systems for `tag` on the entities `entity_ids`,
    /// which travel to the JVM as `long`s (the same 64 bits).
    pub fn load_systems_for_entities(&mut self, tag: &str, entity_ids: &[u64]) -> (r: Result<SystemCall, ScriptError>)
        ensures
            *final(self) == *old(self),
            match old(self).system_manager() {
                Some(m) => r matches Ok(c) && c.manager == m && (c.call matches SystemManagerCall::LoadSystemsForEntities { tag: t, entity_ids: ids } && t@ == tag@
                    && ids@.len() == entity_ids@.len()
                    && forall|i: int| 0 <= i < ids@.len() ==> #[trigger] ids@[i] == entity_ids@[i] as i64),
                None => r matches Err(e) && missing_manager(not_initialised_text("when loading systems for tag: "@ + tag@), e),
            },
    {
        match self.system_manager_instance {
            Some(m) => {
                let mut ids: Vec<i64> = Vec::new();
                let mut i: usize = 0;
                while i < entity_ids.len()
                    invariant
                        i <= entity_ids@.len(),
                        ids@.len() == i,
                        forall|j: int| 0 <= j < i ==> #[trigger] ids@[j] == entity_ids@[j] as i64,
                    decreases entity_ids@.len() - i,
                {
                    ids.push(entity_ids[i] as i64);
                    i += 1;
                }
                Ok(SystemCall { manager: m, call: SystemManagerCall::LoadSystemsForEntities { tag: tag.to_owned(), entity_ids: ids } })
            },
            None => Err(not_initialised("when loading systems for tag: ", tag)),
        }
    }

    /// Delivers a collision on the entity `entity_id` to the systems of `tag`.
    pub fn collision_event(&self, tag: &str, entity_id: u64) -> (r: Result<SystemCall, ScriptError>)
        ensures
            match self.system_manager() {
                Some(m) => r matches Ok(c) && c.manager == m && (c.call matches SystemManagerCall::CollisionEvent { tag: t, entity_id: id } && t@ == tag@ && id == entity_id as i64),
                None => r matches Err(e) && missing_manager("SystemManager not initialised when delivering collision events."@, e),
            },
    {
        match self.system_manager_instance {
            Some(m) => Ok(SystemCall { manager: m, call: SystemManagerCall::CollisionEvent { tag: tag.to_owned(), entity_id: entity_id as i64 } }),
            None => Err(ScriptError::NotInitialised { message: "SystemManager not initialised when delivering collision events.".to_owned() }),
        }
    }

    /// Asks the system manager to unload the systems of `tag`.
    pub fn unload_systems_for_tag(&self, tag: &str) -> (r: Result<SystemCall, ScriptError>)
        ensures
            match self.system_manager() {
                Some(m) => r matches Ok(c) && c.manager == m && (c.call matches SystemManagerCall::UnloadSystemsByTag { tag: t } && t@ == tag@),
                None => r matches Err(e) && missing_manager(not_initialised_text("when unloading systems for tag: "@ + tag@), e),
            },
    {
        match self.system_manager_instance {
            Some(m) => Ok(SystemCall { manager: m, call: SystemManagerCall::UnloadSystemsByTag { tag: tag.to_owned() } }),
            None => Err(not_initialised("when unloading systems for tag: ", tag)),
        }
    }

    /// Asks the system manager to destroy the systems of `tag`.
    pub fn destroy_systems_for_tag(&self, tag: &str) -> (r: Result<SystemCall, ScriptError>)
        ensures
            match self.system_manager() {
                Some(m) => r matches Ok(c) && c.manager == m && (c.call matches SystemManagerCall::DestroySystemsByTag { tag: t } && t@ == tag@),
                None => r matches Err(e) && missing_manager(not_initialised_text("when destroying systems for tag: "@ + tag@), e),
            },
    {
        match self.system_manager_instance {
            Some(m) => Ok(SystemCall { manager: m, call: SystemManagerCall::DestroySystemsByTag { tag: tag.to_owned() } }),
            None => Err(not_initialised("when destroying systems for tag: ", tag)),
        }
    }

    /// Asks the system manager to unload every system.
    pub fn unload_all_systems(&self) -> (r: Result<SystemCall, ScriptError>)
        ensures
            match self.system_manager() {
                Some(m) => r matches Ok(c) && c.manager == m && c.call is UnloadAllSystems,
                None => r matches Err(e) && missing_manager("SystemManager not initialised when unloading all systems."@, e),
            },
    {
        match self.system_manager_instance {
            Some(m) => Ok(SystemCall { manager: m, call: SystemManagerCall::UnloadAllSystems }),
            None => Err(ScriptError::NotInitialised { message: "SystemManager not initialised when unloading all systems.".to_owned() }),
        }
    }

    /// Asks the system manager how many systems `tag` has.
    pub fn get_system_count_for_tag(&self, tag: &str) -> (r: Result<SystemCall, ScriptError>)
        ensures
            match self.system_manager() {
                Some(m) => r matches Ok(c) && c.manager == m && (c.call matches SystemManagerCall::GetSystemCount { tag: t } && t@ == tag@),
                None => r matches Err(e) && missing_manager(not_initialised_text("when getting system count for tag: "@ + tag@), e),
            },
    {
        match self.system_manager_instance {
            Some(m) => Ok(SystemCall { manager: m, call: SystemManagerCall::GetSystemCount { tag: tag.to_owned() } }),
            None => Err(not_initialised("when getting system count for tag: ", tag)),
        }
    }

    /// Asks the system manager whether `tag` has systems.
    pub fn has_systems_for_tag(&self, tag: &str) -> (r: Result<SystemCall, ScriptError>)
        ensures
            match self.system_manager() {
                Some(m) => r matches Ok(c) && c.manager == m && (c.call matches SystemManagerCall::HasSystemsForTag { tag: t } && t@ == tag@),
                None => r matches Err(e) && missing_manager(not_initialised_text("when checking for systems for tag: "@ + tag@), e),
            },
    {
        match self.system_manager_instance {
            Some(m) => Ok(SystemCall { manager: m, call: SystemManagerCall::HasSystemsForTag { tag: tag.to_owned() } }),
            None => Err(not_initialised("when checking for systems for tag: ", tag)),
        }
    }

    /// Asks the system manager how many systems there are in all.
    pub fn get_total_system_count(&self) -> (r: Result<SystemCall, ScriptError>)
        ensures
            match self.system_manager() {
                Some(m) => r matches Ok(c) && c.manager == m && c.call is GetTotalSystemCount,
                None => r matches Err(e) && missing_manager("SystemManager not initialised when getting total system count."@, e),
            },
    {
        match self.system_manager_instance {
            Some(m) => Ok(SystemCall { manager: m, call: SystemManagerCall::GetTotalSystemCount }),
            None => Err(ScriptError::NotInitialised { message: "SystemManager not initialised when getting total system count.".to_owned() }),
        }
    }

    /// Registers the components that scripts define; nothing needs registering yet.
    pub fn register_components() -> (r: Result<(), ScriptError>)
        ensures
            r is Ok,
    {
        Ok(())
    }

    /// Registers the callbacks that scripts define; nothing needs registering yet.
    pub fn register_callbacks() -> (r: Result<(), ScriptError>)
        ensures
            r is Ok,
    {
        Ok(())
    }
}

} // verus!
