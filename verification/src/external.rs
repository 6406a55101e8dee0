//! A home for the state of skills that are kept outside the library.
//!
//! A checkout of skills elsewhere on disk needs a database, a cache and logs of its own. They
//! go below the default library, under a name derived from the checkout's path, so that the
//! checkout stays clean and the same checkout always finds the same state.

use sha2::{Digest, Sha256};
use vstd::prelude::*;
use vstd::string::*;
use vstd::utf8::encode_utf8;

use crate::central_repo::{default_base_dir, home_base};
use crate::environment::{Environment, EnvironmentView};
use crate::external_laws::outside_state;
use crate::paths::{
    absolute, child_of, file_name_of, joined, lexical, lexically_normalize, path_ref, text_of,
    PathView, RepoPath,
};
use crate::state::RepoState;
use crate::text::chars_of;

verus! {

/// The directory of all outside state below the default library, and the name of a checkout
/// that has none.
pub const EXTERNAL_DIR_NAME: &'static str = "external";

/// How many bytes of the digest go into a name.
pub const SHORT_HASH_BYTES: usize = 5;

/// The SHA-256 digest of `data`.
pub uninterp spec fn sha256(data: Seq<u8>) -> Seq<u8>;

/// `sha2::Sha256::digest` feeds a fresh hasher with all of `data` and finishes it. The result is
/// the SHA-256 digest of `data`, which has 32 bytes.
#[verifier::external_body]
fn sha256_digest(data: &[u8]) -> (r: Vec<u8>)
    ensures
        r@ == sha256(data@),
        r@.len() == 32,
{
    Sha256::digest(data).to_vec()
}

/// Characters that may stand in a directory name.
pub open spec fn safe_char(c: char) -> bool {
    ||| 'a' <= c <= 'z'
    ||| 'A' <= c <= 'Z'
    ||| '0' <= c <= '9'
    ||| c == '-'
    ||| c == '_'
    ||| c == '.'
}

/// `c`, or a `-` in its place.
pub open spec fn safe_or_dash(c: char) -> char {
    if safe_char(c) {
        c
    } else {
        '-'
    }
}

/// `name` with a `-` for every character that may not stand in a directory name; a name of
/// its own for the empty one.
pub open spec fn sanitized(name: Seq<char>) -> Seq<char> {
    if name.len() == 0 {
        EXTERNAL_DIR_NAME@
    } else {
        Seq::new(name.len(), |i: int| safe_or_dash(name[i]))
    }
}

/// A name made of letters, digits, `-`, `_` and `.` alone, and never empty.
pub fn sanitize_dir_name(name: &str) -> (r: String)
    ensures
        r@ == sanitized(name@),
{
    let chars = chars_of(name);
    if chars.len() == 0 {
        return EXTERNAL_DIR_NAME.to_owned();
    }
    let ghost whole = sanitized(name@);
    let mut cleaned = String::new();
    for i in 0..chars.len()
        invariant
            chars@ == name@,
            name@.len() > 0,
            whole == sanitized(name@),
            cleaned@ == whole.take(i as int),
    {
        let c = chars[i];
        if ('a' <= c && c <= 'z') || ('A' <= c && c <= 'Z') || ('0' <= c && c <= '9') || c == '-'
            || c == '_' || c == '.' {
            cleaned.push(c);
        } else {
            cleaned.push('-');
        }
        assert(whole.take(i + 1) =~= whole.take(i as int).push(whole[i as int]));
    }
    assert(whole.take(chars@.len() as int) =~= whole);
    cleaned
}

/// The lower-case hexadecimal digit of `value`, which is below sixteen.
pub open spec fn hex_digit(value: int) -> char {
    if value < 10 {
        (48 + value) as char
    } else {
        (87 + value) as char
    }
}

/// A byte in two hexadecimal digits.
pub open spec fn hex_pair(byte: u8) -> Seq<char> {
    seq![hex_digit(byte as int / 16), hex_digit(byte as int % 16)]
}

/// Bytes in hexadecimal digits.
pub open spec fn hex_text(bytes: Seq<u8>) -> Seq<char>
    decreases bytes.len(),
{
    if bytes.len() == 0 {
        seq![]
    } else {
        hex_text(bytes.drop_last()) + hex_pair(bytes.last())
    }
}

/// The first bytes of a digest.
pub open spec fn short_hash(digest: Seq<u8>) -> Seq<u8> {
    if digest.len() <= SHORT_HASH_BYTES {
        digest
    } else {
        digest.take(SHORT_HASH_BYTES as int)
    }
}

fn to_hex_digit(value: u8) -> (r: char)
    requires
        value < 16,
    ensures
        r == hex_digit(value as int),
{
    if value < 10 {
        (48 + value) as char
    } else {
        (87 + value) as char
    }
}

/// The name of a checkout's state: its own name made safe, and the beginning of its digest.
pub open spec fn state_dir_name(name: Seq<char>, digest: Seq<u8>) -> Seq<char> {
    sanitized(name) + "-"@ + hex_text(short_hash(digest))
}

/// The name of a checkout's state, from the name of the checkout and the digest of its path.
pub fn external_dir_name(name: &str, digest: &[u8]) -> (r: String)
    ensures
        r@ == state_dir_name(name@, digest@),
{
    let mut text = sanitize_dir_name(name);
    text.append("-");
    let ghost head = text@;
    let taken: usize = if digest.len() <= SHORT_HASH_BYTES {
        digest.len()
    } else {
        SHORT_HASH_BYTES
    };
    let ghost short = short_hash(digest@);
    assert(short =~= digest@.take(taken as int));
    assert(text@ =~= head + hex_text(short.take(0)));
    for i in 0..taken
        invariant
            taken <= digest@.len(),
            short == digest@.take(taken as int),
            text@ == head + hex_text(short.take(i as int)),
    {
        let byte = digest[i];
        let ghost before = text@;
        text.push(to_hex_digit(byte / 16));
        text.push(to_hex_digit(byte % 16));
        assert(short.take(i + 1).drop_last() =~= short.take(i as int));
        assert(text@ =~= before + hex_pair(byte));
        assert(text@ =~= head + hex_text(short.take(i + 1)));
    }
    assert(short.take(taken as int) =~= short);
    text
}

/// The path that identifies a checkout: its canonical form, or, for one that is not there
/// yet, the absolute path without `.` and `..`.
pub open spec fn identity_of(
    env: EnvironmentView,
    skills_root: PathView,
    canonical: Option<PathView>,
    current_dir: Option<PathView>,
) -> PathView {
    match canonical {
        Some(path) => path,
        None => lexical(
            if absolute(env.platform, skills_root) {
                skills_root
            } else {
                match current_dir {
                    Some(dir) => joined(env.platform, dir, skills_root),
                    None => skills_root,
                }
            },
        ),
    }
}

/// The path that identifies a checkout. `canonical` is the canonical form of `skills_root`,
/// where it has one.
pub fn external_identity(
    env: &Environment,
    skills_root: &RepoPath,
    canonical: Option<&RepoPath>,
    current_dir: Option<&RepoPath>,
) -> (r: RepoPath)
    ensures
        r@ == identity_of(env@, skills_root@, path_ref(canonical), path_ref(current_dir)),
{
    if let Some(path) = canonical {
        return path.clone();
    }
    if skills_root.is_absolute(env.platform) {
        return lexically_normalize(skills_root);
    }
    match current_dir {
        Some(dir) => lexically_normalize(&dir.join(skills_root, env.platform)),
        None => lexically_normalize(skills_root),
    }
}

/// The directory below the default library for the checkout at `identity`, given the digest
/// of its path.
pub open spec fn external_base(
    default_base: PathView,
    identity: PathView,
    digest: Seq<u8>,
) -> PathView {
    child_of(
        child_of(default_base, EXTERNAL_DIR_NAME@),
        state_dir_name(
            match file_name_of(identity) {
                Some(name) => name,
                None => EXTERNAL_DIR_NAME@,
            },
            digest,
        ),
    )
}

/// The directory for the state of a checkout, given the digest of the path that identifies it.
pub fn external_base_dir_for(
    state: &RepoState,
    env: &Environment,
    identity: &RepoPath,
    digest: &[u8],
) -> (r: RepoPath)
    requires
        home_base(state@, env@) is Some,
    ensures
        r@ == external_base(home_base(state@, env@)->0, identity@, digest@),
{
    let name = match identity.file_name() {
        Some(name) => name,
        None => EXTERNAL_DIR_NAME,
    };
    default_base_dir(state, env).child(EXTERNAL_DIR_NAME).child(
        external_dir_name(name, digest).as_str(),
    )
}

/// The directory for the state of the checkout at `skills_root`. `canonical` is the canonical
/// form of that path, where it has one. The same checkout always gets the same directory,
/// below the default library.
pub fn external_base_dir(
    state: &RepoState,
    env: &Environment,
    skills_root: &RepoPath,
    canonical: Option<&RepoPath>,
    current_dir: Option<&RepoPath>,
) -> (r: RepoPath)
    requires
        home_base(state@, env@) is Some,
    ensures
        ({
            let identity = identity_of(
                env@,
                skills_root@,
                path_ref(canonical),
                path_ref(current_dir),
            );
            r@ == external_base(
                home_base(state@, env@)->0,
                identity,
                sha256(encode_utf8(text_of(env@.platform, identity))),
            )
        }),
        r@ == outside_state(
            env@,
            home_base(state@, env@)->0,
            skills_root@,
            path_ref(canonical),
            path_ref(current_dir),
        ),
{
    let identity = external_identity(env, skills_root, canonical, current_dir);
    let text = identity.to_text(env.platform);
    let digest = sha256_digest(text.as_str().as_bytes());
    external_base_dir_for(state, env, &identity, digest.as_slice())
}

} // verus!
