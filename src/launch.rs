//! What a start hands to the child program: its arguments, its terminal
//! environment and size, and which launch artifact it runs.
use vstd::prelude::*;

verus! {

/// The child process started on the terminal.
pub struct PtySpawnResult {
    pub child_pid: i32,
}

/// Rows of the terminal allocated for a session.
pub const TERMINAL_ROWS: u16 = 24;

/// Columns of the terminal allocated for a session.
pub const TERMINAL_COLS: u16 = 80;

/// The views of a list of strings.
pub open spec fn texts(v: Seq<String>) -> Seq<Seq<char>> {
    v.map_values(|s: String| s@)
}

pub open spec fn default_args_of(jar_name: Seq<char>) -> Seq<Seq<char>> {
    seq![
        "-Dnet.kyori.ansi.colorLevel=truecolor"@,
        "-Xms2G"@,
        "-Xmx4G"@,
        "-jar"@,
        jar_name,
        "--nogui"@,
    ]
}

/// The arguments for the launch program: those given, or, when none are,
/// the defaults that run `jar_name` without its graphical console.
pub fn java_args_or_default(java_args: Vec<String>, jar_name: &str) -> (r: Vec<String>)
    ensures
        java_args@.len() > 0 ==> r@ == java_args@,
        java_args@.len() == 0 ==> texts(r@) == default_args_of(jar_name@),
{
    if java_args.len() > 0 {
        java_args
    } else {
        let mut r: Vec<String> = Vec::new();
        r.push("-Dnet.kyori.ansi.colorLevel=truecolor".to_owned());
        r.push("-Xms2G".to_owned());
        r.push("-Xmx4G".to_owned());
        r.push("-jar".to_owned());
        r.push(jar_name.to_owned());
        r.push("--nogui".to_owned());
        assert(texts(r@) =~= default_args_of(jar_name@));
        r
    }
}

/// The program the child runs.
pub fn launch_program() -> (r: String)
    ensures
        r@ == "java"@,
{
    "java".to_owned()
}

/// The argument vector of the child: the program name, then its arguments.
pub fn child_argv(java_args: &Vec<String>) -> (r: Vec<String>)
    ensures
        texts(r@) == seq!["java"@] + texts(java_args@),
{
    let mut r: Vec<String> = Vec::new();
    r.push(launch_program());
    let mut i: usize = 0;
    while i < java_args.len()
        invariant
            i <= java_args@.len(),
            texts(r@) == seq!["java"@] + texts(java_args@.subrange(0, i as int)),
        decreases java_args@.len() - i,
    {
        let ghost prev = r@;
        let a = java_args[i].clone();
        r.push(a);
        assert(texts(r@) =~= texts(prev).push(java_args@[i as int]@));
        assert(java_args@.subrange(0, i + 1) =~= java_args@.subrange(0, i as int).push(
            java_args@[i as int],
        ));
        i = i + 1;
        assert(texts(r@) =~= seq!["java"@] + texts(java_args@.subrange(0, i as int)));
    }
    assert(java_args@.subrange(0, java_args@.len() as int) =~= java_args@);
    r
}

/// The environment the child gets, so that it believes its terminal has
/// full color capability.
pub fn terminal_environment() -> (r: Vec<(String, String)>)
    ensures
        r@.len() == 2,
        r@[0].0@ == "TERM"@ && r@[0].1@ == "xterm-256color"@,
        r@[1].0@ == "COLORTERM"@ && r@[1].1@ == "truecolor"@,
{
    let mut r: Vec<(String, String)> = Vec::new();
    r.push(("TERM".to_owned(), "xterm-256color".to_owned()));
    r.push(("COLORTERM".to_owned(), "truecolor".to_owned()));
    r
}

pub open spec fn jar_suffix() -> Seq<u8> {
    seq![0x2eu8, 0x6au8, 0x61u8, 0x72u8]
}

/// Whether a file name has the extension `jar`: it ends in `.jar` and has
/// at least one byte before that dot.
pub open spec fn is_jar_name(name: Seq<u8>) -> bool {
    name.len() >= 5 && name.subrange(name.len() - 4, name.len() as int) == jar_suffix()
}

/// The file names tried first, in order.
pub open spec fn jar_candidates_spec() -> Seq<Seq<u8>> {
    seq![
        seq![0x70u8, 0x61u8, 0x70u8, 0x65u8, 0x72u8, 0x2eu8, 0x6au8, 0x61u8, 0x72u8],
        seq![0x73u8, 0x65u8, 0x72u8, 0x76u8, 0x65u8, 0x72u8, 0x2eu8, 0x6au8, 0x61u8, 0x72u8],
        seq![0x73u8, 0x70u8, 0x69u8, 0x67u8, 0x6fu8, 0x74u8, 0x2eu8, 0x6au8, 0x61u8, 0x72u8],
        seq![0x62u8, 0x75u8, 0x6bu8, 0x6bu8, 0x69u8, 0x74u8, 0x2eu8, 0x6au8, 0x61u8, 0x72u8],
    ]
}

/// The file names tried first, in order: `paper.jar`, `server.jar`,
/// `spigot.jar`, `bukkit.jar`.
pub fn jar_candidates() -> (r: Vec<Vec<u8>>)
    ensures
        r@.len() == 4,
        forall|i: int| 0 <= i < 4 ==> #[trigger] r@[i]@ == jar_candidates_spec()[i],
{
    let mut r: Vec<Vec<u8>> = Vec::new();
    r.push(vec![0x70, 0x61, 0x70, 0x65, 0x72, 0x2e, 0x6a, 0x61, 0x72]);
    r.push(vec![0x73, 0x65, 0x72, 0x76, 0x65, 0x72, 0x2e, 0x6a, 0x61, 0x72]);
    r.push(vec![0x73, 0x70, 0x69, 0x67, 0x6f, 0x74, 0x2e, 0x6a, 0x61, 0x72]);
    r.push(vec![0x62, 0x75, 0x6b, 0x6b, 0x69, 0x74, 0x2e, 0x6a, 0x61, 0x72]);
    assert(r@[0]@ =~= jar_candidates_spec()[0]);
    assert(r@[1]@ =~= jar_candidates_spec()[1]);
    assert(r@[2]@ =~= jar_candidates_spec()[2]);
    assert(r@[3]@ =~= jar_candidates_spec()[3]);
    r
}

/// Whether a file name has the extension `jar`.
pub fn has_jar_extension(name: &[u8]) -> (r: bool)
    ensures
        r == is_jar_name(name@),
{
    let n = name.len();
    if n < 5 {
        return false;
    }
    let r = name[n - 4] == 0x2e && name[n - 3] == 0x6a && name[n - 2] == 0x61 && name[n - 1]
        == 0x72;
    assert(r == (name@.subrange(n - 4, n as int) =~= jar_suffix()));
    r
}

/// Which launch artifact a start runs.
#[derive(Debug, PartialEq, Eq, Structural)]
pub enum JarChoice {
    /// The candidate name at this position exists.
    Candidate(usize),
    /// No candidate exists; the directory entry at this position is the
    /// first with the extension `jar`.
    Entry(usize),
    /// Neither.
    NotFound,
}

/// Picks the launch artifact: the first candidate name that exists
/// (`present[i]` for `jar_candidates()[i]`), else the first directory entry,
/// in listing order, whose name has the extension `jar`.
pub fn choose_jar(present: &Vec<bool>, entries: &Vec<Vec<u8>>) -> (r: JarChoice)
    requires
        present@.len() == 4,
    ensures
        r matches JarChoice::Candidate(i) ==> i < 4 && present@[i as int] && forall|k: int|
            0 <= k < i ==> !present@[k],
        r matches JarChoice::Entry(j) ==> j < entries@.len() && is_jar_name(entries@[j as int]@)
            && forall|k: int| 0 <= k < j ==> !is_jar_name(#[trigger] entries@[k]@),
        !(r is Candidate) <==> forall|k: int| 0 <= k < 4 ==> !present@[k],
        r is NotFound <==> (forall|k: int| 0 <= k < 4 ==> !present@[k]) && forall|k: int|
            0 <= k < entries@.len() ==> !is_jar_name(#[trigger] entries@[k]@),
{
    let mut i: usize = 0;
    while i < 4
        invariant
            present@.len() == 4,
            i <= 4,
            forall|k: int| 0 <= k < i ==> !present@[k],
        decreases 4 - i,
    {
        if present[i] {
            return JarChoice::Candidate(i);
        }
        i = i + 1;
    }
    let mut j: usize = 0;
    while j < entries.len()
        invariant
            j <= entries@.len(),
            present@.len() == 4,
            forall|k: int| 0 <= k < 4 ==> !present@[k],
            forall|k: int| 0 <= k < j ==> !is_jar_name(#[trigger] entries@[k]@),
        decreases entries@.len() - j,
    {
        if has_jar_extension(entries[j].as_slice()) {
            return JarChoice::Entry(j);
        }
        j = j + 1;
    }
    JarChoice::NotFound
}

} // verus!
