//! Where a session's files live: a directory under the user's home, named
//! by a stable digest of the managed directory's canonical path, so that any
//! later invocation finds the same record without a registry.
use vstd::prelude::*;

verus! {

/// The MD5 digest of `data`.
pub uninterp spec fn md5_of(data: Seq<u8>) -> Seq<u8>;

/// Relies on md5::compute: the 16-byte digest of the input bytes, which
/// depends on those bytes alone.
#[verifier::external_body]
fn md5_digest(data: &[u8]) -> (r: Vec<u8>)
    ensures
        r@ == md5_of(data@),
        r@.len() == 16,
{
    md5::compute(data).0.to_vec()
}

/// Relies on dirs::home_dir: the home directory from the environment or the
/// password database, as raw path bytes; it is never empty when present.
#[verifier::external_body]
fn home_directory() -> (r: Option<Vec<u8>>)
    ensures
        r is Some ==> r->Some_0@.len() > 0,
{
    dirs::home_dir().map(|h| h.into_os_string().into_encoded_bytes())
}

/// The lower-case hexadecimal digit of a value below sixteen.
pub open spec fn hex_digit(v: int) -> u8 {
    if v < 10 {
        (0x30 + v) as u8
    } else {
        (0x61 + v - 10) as u8
    }
}

/// Two lower-case hexadecimal digits for each byte, high digit first.
pub open spec fn hex_of(bytes: Seq<u8>) -> Seq<u8>
    decreases bytes.len(),
{
    if bytes.len() == 0 {
        Seq::empty()
    } else {
        let n = bytes.len() - 1;
        hex_of(bytes.subrange(0, n)) + seq![
            hex_digit(bytes[n] as int / 16),
            hex_digit(bytes[n] as int % 16),
        ]
    }
}

/// `name` appended to `base` as a further path component.
pub open spec fn join_path(base: Seq<u8>, name: Seq<u8>) -> Seq<u8> {
    if base.len() == 0 || base[base.len() - 1] == 0x2f {
        base + name
    } else {
        base + seq![0x2fu8] + name
    }
}

pub open spec fn tmp_dir() -> Seq<u8> {
    seq![0x2fu8, 0x74u8, 0x6du8, 0x70u8]
}

pub open spec fn base_name() -> Seq<u8> {
    seq![0x2eu8, 0x6du8, 0x63u8, 0x77u8, 0x72u8, 0x61u8, 0x70u8]
}

pub open spec fn state_name() -> Seq<u8> {
    seq![0x73u8, 0x74u8, 0x61u8, 0x74u8, 0x65u8, 0x2eu8, 0x6au8, 0x73u8, 0x6fu8, 0x6eu8]
}

pub open spec fn log_name() -> Seq<u8> {
    seq![0x63u8, 0x6fu8, 0x6eu8, 0x73u8, 0x6fu8, 0x6cu8, 0x65u8, 0x2eu8, 0x6cu8, 0x6fu8, 0x67u8]
}

pub open spec fn socket_name() -> Seq<u8> {
    seq![0x70u8, 0x74u8, 0x79u8, 0x2eu8, 0x73u8, 0x6fu8, 0x63u8, 0x6bu8]
}

pub open spec fn input_name() -> Seq<u8> {
    seq![0x69u8, 0x6eu8, 0x70u8, 0x75u8, 0x74u8]
}

/// The directory that holds every session's storage: `.mcwrap` under the
/// home directory, or under `/tmp` when there is none.
pub open spec fn wrap_base_of(home: Option<Seq<u8>>) -> Seq<u8> {
    match home {
        Some(h) => join_path(h, base_name()),
        None => join_path(tmp_dir(), base_name()),
    }
}

/// The session identifier: the first twelve hexadecimal digits of the digest.
pub open spec fn session_id_of(digest: Seq<u8>) -> Seq<u8> {
    hex_of(digest.subrange(0, 6))
}

pub open spec fn wrap_dir_of(home: Option<Seq<u8>>, digest: Seq<u8>) -> Seq<u8> {
    join_path(wrap_base_of(home), session_id_of(digest))
}

pub open spec fn home_view(home: &Option<Vec<u8>>) -> Option<Seq<u8>> {
    match home {
        Some(h) => Some(h@),
        None => None,
    }
}

fn hex_digit_of(v: u8) -> (d: u8)
    requires
        v < 16,
    ensures
        d == hex_digit(v as int),
{
    if v < 10 {
        0x30 + v
    } else {
        0x61 + v - 10
    }
}

/// Lower-case hexadecimal text of `bytes`.
pub fn to_hex(bytes: &[u8]) -> (r: Vec<u8>)
    requires
        bytes@.len() <= usize::MAX / 2,
    ensures
        r@ == hex_of(bytes@),
{
    let mut r: Vec<u8> = Vec::new();
    let mut i: usize = 0;
    while i < bytes.len()
        invariant
            i <= bytes@.len(),
            r@ == hex_of(bytes@.subrange(0, i as int)),
        decreases bytes@.len() - i,
    {
        let b = bytes[i];
        r.push(hex_digit_of(b / 16));
        r.push(hex_digit_of(b % 16));
        i = i + 1;
        assert(bytes@.subrange(0, i as int).subrange(0, i - 1) =~= bytes@.subrange(0, i - 1));
        assert(r@ =~= hex_of(bytes@.subrange(0, i as int)));
    }
    assert(bytes@.subrange(0, bytes@.len() as int) =~= bytes@);
    r
}

fn append(dst: &mut Vec<u8>, src: &[u8])
    ensures
        final(dst)@ == old(dst)@ + src@,
{
    let ghost start = dst@;
    let mut i: usize = 0;
    while i < src.len()
        invariant
            i <= src@.len(),
            dst@ == start + src@.subrange(0, i as int),
        decreases src@.len() - i,
    {
        dst.push(src[i]);
        i = i + 1;
        assert(dst@ =~= start + src@.subrange(0, i as int));
    }
    assert(src@.subrange(0, src@.len() as int) =~= src@);
}

/// `name` appended to `base` as a further path component.
pub fn join(base: &[u8], name: &[u8]) -> (r: Vec<u8>)
    ensures
        r@ == join_path(base@, name@),
{
    let mut r: Vec<u8> = Vec::new();
    append(&mut r, base);
    if base.len() > 0 && base[base.len() - 1] != 0x2f {
        r.push(0x2f);
    }
    append(&mut r, name);
    assert(Seq::<u8>::empty() + base@ =~= base@);
    r
}

/// The directory that holds every session's storage, for a given home directory.
pub fn wrap_base(home: &Option<Vec<u8>>) -> (r: Vec<u8>)
    ensures
        r@ == wrap_base_of(home_view(home)),
{
    let name: Vec<u8> = vec![0x2e, 0x6d, 0x63, 0x77, 0x72, 0x61, 0x70];
    assert(name@ =~= base_name());
    match home {
        Some(h) => join(h.as_slice(), name.as_slice()),
        None => {
            let tmp: Vec<u8> = vec![0x2f, 0x74, 0x6d, 0x70];
            assert(tmp@ =~= tmp_dir());
            join(tmp.as_slice(), name.as_slice())
        },
    }
}

/// The storage directory of a session, for a given home directory and the
/// digest of the managed directory's path.
pub fn wrap_dir_for(home: &Option<Vec<u8>>, digest: &[u8]) -> (r: Vec<u8>)
    requires
        digest@.len() >= 6,
    ensures
        r@ == wrap_dir_of(home_view(home), digest@),
{
    let base = wrap_base(home);
    let id = to_hex(&digest[0..6]);
    join(base.as_slice(), id.as_slice())
}

/// The session identifier of a managed directory, given its canonical path.
pub fn session_id(server_dir: &[u8]) -> (r: Vec<u8>)
    ensures
        r@ == session_id_of(md5_of(server_dir@)),
{
    let digest = md5_digest(server_dir);
    to_hex(&digest.as_slice()[0..6])
}

/// The directory that holds every session's storage, under whatever home
/// directory the environment names.
pub fn get_wrap_base() -> (r: Vec<u8>)
    ensures
        exists|home: Option<Seq<u8>>| r@ == wrap_base_of(home),
{
    let home = home_directory();
    let r = wrap_base(&home);
    assert(r@ == wrap_base_of(home_view(&home)));
    r
}

/// The storage directory of the session for a managed directory, given its
/// canonical path, under whatever home directory the environment names.
pub fn get_wrap_dir(server_dir: &[u8]) -> (r: Vec<u8>)
    ensures
        exists|home: Option<Seq<u8>>| r@ == wrap_dir_of(home, md5_of(server_dir@)),
{
    let home = home_directory();
    let digest = md5_digest(server_dir);
    let r = wrap_dir_for(&home, digest.as_slice());
    assert(r@ == wrap_dir_of(home_view(&home), md5_of(server_dir@)));
    r
}

/// The files of one session.
pub struct ServerPaths {
    pub wrap_dir: Vec<u8>,
    pub state_file: Vec<u8>,
    pub log_file: Vec<u8>,
    pub socket_path: Vec<u8>,
}

impl ServerPaths {
    /// Whether the files are those inside the storage directory `dir`.
    pub open spec fn lies_in(&self, dir: Seq<u8>) -> bool {
        &&& self.wrap_dir@ == dir
        &&& self.state_file@ == join_path(dir, state_name())
        &&& self.log_file@ == join_path(dir, log_name())
        &&& self.socket_path@ == join_path(dir, socket_name())
    }

    /// The files inside the storage directory `wrap_dir`.
    pub fn in_dir(wrap_dir: Vec<u8>) -> (r: ServerPaths)
        ensures
            r.lies_in(wrap_dir@),
    {
        let state: Vec<u8> = vec![0x73, 0x74, 0x61, 0x74, 0x65, 0x2e, 0x6a, 0x73, 0x6f, 0x6e];
        let log: Vec<u8> = vec![0x63, 0x6f, 0x6e, 0x73, 0x6f, 0x6c, 0x65, 0x2e, 0x6c, 0x6f, 0x67];
        let sock: Vec<u8> = vec![0x70, 0x74, 0x79, 0x2e, 0x73, 0x6f, 0x63, 0x6b];
        assert(state@ =~= state_name());
        assert(log@ =~= log_name());
        assert(sock@ =~= socket_name());
        ServerPaths {
            state_file: join(wrap_dir.as_slice(), state.as_slice()),
            log_file: join(wrap_dir.as_slice(), log.as_slice()),
            socket_path: join(wrap_dir.as_slice(), sock.as_slice()),
            wrap_dir,
        }
    }

    /// The files of the session for a managed directory, given its canonical path.
    pub fn new(server_dir: &[u8]) -> (r: ServerPaths)
        ensures
            exists|home: Option<Seq<u8>>| r.lies_in(wrap_dir_of(home, md5_of(server_dir@))),
    {
        let dir = get_wrap_dir(server_dir);
        ServerPaths::in_dir(dir)
    }

    /// The named pipe that carries input in the pipe fallback.
    pub fn input_fifo(&self) -> (r: Vec<u8>)
        ensures
            r@ == join_path(self.wrap_dir@, input_name()),
    {
        let name: Vec<u8> = vec![0x69, 0x6e, 0x70, 0x75, 0x74];
        assert(name@ =~= input_name());
        join(self.wrap_dir.as_slice(), name.as_slice())
    }
}

} // verus!
