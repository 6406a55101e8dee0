//! What holds of the directories for outside state: they are stable, apart from each other, and
//! never outside the default library.

use vstd::prelude::*;
use vstd::utf8::encode_utf8;

use crate::environment::EnvironmentView;
use crate::external::{
    external_base, hex_digit, hex_pair, hex_text, identity_of, safe_char, safe_or_dash, sanitized,
    sha256, short_hash, state_dir_name, EXTERNAL_DIR_NAME, SHORT_HASH_BYTES,
};
use crate::path_laws::{
    all_names, law_names_are_appended, law_redundant_components_vanish, law_same_path_reflexive,
    lemma_collapse_onto_append, lemma_collapse_onto_names, plain_name,
};
use crate::paths::{
    absolute, child_of, collapse_onto, file_name_of, implies_root, is_name, joined, lexical,
    main_separator, path_starts_with, text_of, with_implied_root, Component, PathView, Platform,
};

verus! {

/// Law: a name made safe is never empty, holds safe characters alone, and stays as it is when it is
/// made safe again; a name that is safe already stays as it is.
pub proof fn law_sanitized_names_are_safe(name: Seq<char>)
    ensures
        sanitized(name).len() > 0,
        forall|i: int| 0 <= i < sanitized(name).len() ==> safe_char(#[trigger] sanitized(name)[i]),
        sanitized(sanitized(name)) == sanitized(name),
        name.len() > 0 && (forall|i: int| 0 <= i < name.len() ==> safe_char(#[trigger] name[i]))
            ==> sanitized(name) == name,
{
    reveal_strlit("external");
    let once = sanitized(name);
    assert forall|i: int| 0 <= i < once.len() implies safe_char(#[trigger] once[i]) by {
        if name.len() > 0 {
            assert(once[i] == safe_or_dash(name[i]));
        }
    }
    assert(sanitized(once) =~= once);
    if name.len() > 0 && (forall|i: int| 0 <= i < name.len() ==> safe_char(#[trigger] name[i])) {
        assert(once =~= name);
    }
}

proof fn lemma_hex_length(bytes: Seq<u8>)
    ensures
        hex_text(bytes).len() == 2 * bytes.len(),
    decreases bytes.len(),
{
    if bytes.len() > 0 {
        lemma_hex_length(bytes.drop_last());
    }
}

proof fn lemma_hex_digit_injective(a: int, b: int)
    requires
        0 <= a < 16,
        0 <= b < 16,
        hex_digit(a) == hex_digit(b),
    ensures
        a == b,
{
}

/// Different bytes have different digits.
proof fn lemma_hex_injective(a: Seq<u8>, b: Seq<u8>)
    requires
        hex_text(a) == hex_text(b),
    ensures
        a == b,
    decreases a.len(),
{
    lemma_hex_length(a);
    lemma_hex_length(b);
    if a.len() == 0 {
        assert(a =~= b);
    } else {
        let head_a = hex_text(a.drop_last());
        let head_b = hex_text(b.drop_last());
        lemma_hex_length(a.drop_last());
        lemma_hex_length(b.drop_last());
        let n = head_a.len() as int;
        assert(hex_text(a).take(n) =~= head_a);
        assert(hex_text(b).take(n) =~= head_b);
        lemma_hex_injective(a.drop_last(), b.drop_last());
        assert(hex_text(a)[n] == hex_pair(a.last())[0]);
        assert(hex_text(b)[n] == hex_pair(b.last())[0]);
        assert(hex_text(a)[n + 1] == hex_pair(a.last())[1]);
        assert(hex_text(b)[n + 1] == hex_pair(b.last())[1]);
        lemma_hex_digit_injective(a.last() as int / 16, b.last() as int / 16);
        lemma_hex_digit_injective(a.last() as int % 16, b.last() as int % 16);
        assert(a =~= a.drop_last().push(a.last()));
        assert(b =~= b.drop_last().push(b.last()));
    }
}

/// Law: checkouts share a name for their state only if their names are the same once made safe and
/// their digests begin with the same bytes.
pub proof fn law_state_names_tell_checkouts_apart(
    name_a: Seq<char>,
    name_b: Seq<char>,
    digest_a: Seq<u8>,
    digest_b: Seq<u8>,
)
    requires
        digest_a.len() == 32,
        digest_b.len() == 32,
        state_dir_name(name_a, digest_a) == state_dir_name(name_b, digest_b),
    ensures
        sanitized(name_a) == sanitized(name_b),
        digest_a.take(SHORT_HASH_BYTES as int) == digest_b.take(SHORT_HASH_BYTES as int),
{
    reveal_strlit("-");
    let short_a = short_hash(digest_a);
    let short_b = short_hash(digest_b);
    lemma_hex_length(short_a);
    lemma_hex_length(short_b);
    let whole = state_dir_name(name_a, digest_a);
    let n = whole.len() - 2 * SHORT_HASH_BYTES;
    assert(whole.skip(n) =~= hex_text(short_a));
    assert(whole.skip(n) =~= hex_text(short_b));
    lemma_hex_injective(short_a, short_b);
    assert(whole.take(n - 1) =~= sanitized(name_a));
    assert(whole.take(n - 1) =~= sanitized(name_b));
}

/// Law: the state of a checkout lies directly below the directory of all outside state, under a
/// name that no separator and no `..` can lead away from there.
pub proof fn law_outside_state_stays_in_its_place(
    platform: Platform,
    default_base: PathView,
    identity: PathView,
    digest: Seq<u8>,
)
    ensures
        ({
            let place = external_base(default_base, identity, digest);
            let home = child_of(default_base, EXTERNAL_DIR_NAME@);
            &&& path_starts_with(place, home)
            &&& place.len() == home.len() + 1
            &&& place.last() matches Component::Normal(name) && plain_name(platform, name)
        }),
{
    let place = external_base(default_base, identity, digest);
    let home = child_of(default_base, EXTERNAL_DIR_NAME@);
    assert(place.take(home.len() as int) =~= home);
    law_same_path_reflexive(home);
    let name = match file_name_of(identity) {
        Some(name) => name,
        None => EXTERNAL_DIR_NAME@,
    };
    law_sanitized_names_are_safe(name);
    lemma_state_name_is_safe(name, digest);
    let text = state_dir_name(name, digest);
    assert(text[sanitized(name).len() as int] == '-');
    assert forall|i: int| 0 <= i < text.len() implies text[i] != main_separator(platform) by {
        assert(safe_char(text[i]));
    }
    if text == seq!['.'] || text == seq!['.', '.'] {
        assert(text[sanitized(name).len() as int] == '.');
    }
}

proof fn lemma_hex_is_safe(bytes: Seq<u8>)
    ensures
        forall|i: int| 0 <= i < hex_text(bytes).len() ==> safe_char(#[trigger] hex_text(bytes)[i]),
    decreases bytes.len(),
{
    if bytes.len() > 0 {
        lemma_hex_is_safe(bytes.drop_last());
        let before = hex_text(bytes.drop_last());
        assert forall|i: int| 0 <= i < hex_text(bytes).len() implies safe_char(
            #[trigger] hex_text(bytes)[i],
        ) by {
            if i < before.len() {
                assert(hex_text(bytes)[i] == before[i]);
            } else {
                assert(hex_text(bytes)[i] == hex_pair(bytes.last())[i - before.len()]);
            }
        }
    }
}

proof fn lemma_state_name_is_safe(name: Seq<char>, digest: Seq<u8>)
    ensures
        state_dir_name(name, digest).len() > sanitized(name).len(),
        state_dir_name(name, digest)[sanitized(name).len() as int] == '-',
        forall|i: int|
            0 <= i < state_dir_name(name, digest).len() ==> safe_char(
                #[trigger] state_dir_name(name, digest)[i],
            ),
{
    reveal_strlit("-");
    law_sanitized_names_are_safe(name);
    lemma_hex_is_safe(short_hash(digest));
    let head = sanitized(name);
    let tail = hex_text(short_hash(digest));
    let text = state_dir_name(name, digest);
    assert forall|i: int| 0 <= i < text.len() implies safe_char(#[trigger] text[i]) by {
        if i < head.len() {
            assert(text[i] == head[i]);
        } else if i > head.len() {
            assert(text[i] == tail[i - head.len() - 1]);
        }
    }
}

/// The directory for the state of a checkout.
pub open spec fn outside_state(
    env: EnvironmentView,
    default_base: PathView,
    skills_root: PathView,
    canonical: Option<PathView>,
    current_dir: Option<PathView>,
) -> PathView {
    let identity = identity_of(env, skills_root, canonical, current_dir);
    external_base(default_base, identity, sha256(encode_utf8(text_of(env.platform, identity))))
}

/// Law: a checkout that is there gets the same directory however its path is written, and from
/// whatever current directory: only the canonical form of its path counts.
pub proof fn law_same_checkout_same_state(
    env: EnvironmentView,
    default_base: PathView,
    root_a: PathView,
    root_b: PathView,
    canonical: PathView,
    dir_a: Option<PathView>,
    dir_b: Option<PathView>,
)
    ensures
        outside_state(env, default_base, root_a, Some(canonical), dir_a) == outside_state(
            env,
            default_base,
            root_b,
            Some(canonical),
            dir_b,
        ),
{
}

/// Law: for a checkout that is not there yet, `name`, `./name` and `other/../name` are one and the
/// same below an absolute current directory, and so is the absolute path that they stand for.
pub proof fn law_redundant_segments_make_no_difference(
    env: EnvironmentView,
    dir: PathView,
    names: PathView,
    other: Seq<char>,
)
    requires
        absolute(env.platform, dir),
        !implies_root(dir),
        all_names(names),
        names.len() > 0,
    ensures
        ({
            let place = joined(env.platform, dir, names);
            let plain = identity_of(env, names, None, Some(dir));
            let dotted = identity_of(env, seq![Component::CurDir] + names, None, Some(dir));
            let detour = identity_of(
                env,
                seq![Component::Normal(other), Component::ParentDir] + names,
                None,
                Some(dir),
            );
            let whole = identity_of(env, place, None, Some(dir));
            &&& plain == dotted
            &&& plain == detour
            &&& plain == whole
            &&& plain == lexical(place)
        }),
{
    let dot: PathView = seq![Component::CurDir];
    let name: PathView = seq![Component::Normal(other)];
    let back: PathView = seq![Component::Normal(other), Component::ParentDir];
    let place = with_implied_root(dir + names);
    law_names_are_appended(env.platform, dir, names);
    lemma_collapse_onto_names(dir, names);
    lemma_collapse_onto_append(dir, dot, names);
    lemma_collapse_onto_append(dir, back, names);
    assert(dot.drop_last() =~= PathView::empty());
    assert(back.drop_last() =~= name);
    assert(name.drop_last() =~= PathView::empty());
    assert(collapse_onto(dir, PathView::empty()) == dir);
    assert(collapse_onto(dir, dot) == dir);
    assert(collapse_onto(dir, name) == dir.push(Component::Normal(other)));
    assert(collapse_onto(dir, back) =~= dir);
    assert((dot + names).skip(1) =~= names);
    assert((dot + names)[0] is CurDir);
    assert((back + names)[0] is Normal);
    assert(is_name(names[0]));
    assert((dir + names)[0] == dir[0]);
    assert((dir + names)[1] == if dir.len() > 1 {
        dir[1]
    } else {
        names[0]
    });
    assert(place[0] == dir[0]);
    let start = if implies_root(dir + names) {
        seq![dir[0], Component::RootDir]
    } else {
        dir
    };
    if implies_root(dir + names) {
        assert(dir.len() == 1);
        assert((dir + names).skip(1) =~= names);
        assert((dir + (back + names)).skip(1) =~= back + names);
        assert((dir + (back + names))[1] == back[0]);
    } else {
        assert((dir + (back + names))[0] == dir[0]);
        assert((dir + (back + names))[1] == if dir.len() > 1 {
            dir[1]
        } else {
            back[0]
        });
    }
    assert(place =~= start + names);
    assert(with_implied_root(dir + (back + names)) =~= start + back + names);
    law_redundant_components_vanish(start, other, names);
    assert(absolute(env.platform, place));
}

/// Law: for a checkout that is not there yet, all these ways to write its path lead to one
/// directory for its state.
pub proof fn law_redundant_segments_share_state(
    env: EnvironmentView,
    default_base: PathView,
    dir: PathView,
    names: PathView,
    other: Seq<char>,
)
    requires
        absolute(env.platform, dir),
        !implies_root(dir),
        all_names(names),
        names.len() > 0,
    ensures
        ({
            let plain = outside_state(env, default_base, names, None, Some(dir));
            let dot = seq![Component::CurDir];
            let back = seq![Component::Normal(other), Component::ParentDir];
            &&& outside_state(env, default_base, dot + names, None, Some(dir)) == plain
            &&& outside_state(env, default_base, back + names, None, Some(dir)) == plain
            &&& outside_state(
                env,
                default_base,
                joined(env.platform, dir, names),
                None,
                Some(dir),
            ) == plain
        }),
{
    law_redundant_segments_make_no_difference(env, dir, names, other);
}

/// Law: a name made safe is as long as it was, character by character: letters, digits, `-`, `_`
/// and `.` stay, and everything else becomes a `-`. Only the empty name becomes another one.
pub proof fn law_names_are_made_safe_character_by_character(name: Seq<char>)
    ensures
        name.len() == 0 ==> sanitized(name) == "external"@,
        name.len() > 0 ==> sanitized(name).len() == name.len(),
        forall|i: int|
            0 <= i < name.len() ==> #[trigger] sanitized(name)[i] == (if ('a' <= name[i] <= 'z')
                || ('A' <= name[i] <= 'Z') || ('0' <= name[i] <= '9') || name[i] == '-' || name[i]
                == '_' || name[i] == '.' {
                name[i]
            } else {
                '-'
            }),
{
}

/// What a hexadecimal digit stands for.
pub open spec fn digit_value(c: char) -> int {
    if '0' <= c <= '9' {
        c as int - '0' as int
    } else if 'a' <= c <= 'f' {
        c as int - 'a' as int + 10
    } else {
        -1
    }
}

/// Law: bytes are written in two lower-case digits each, in order, the higher one first.
pub proof fn law_digits_stand_for_their_bytes(bytes: Seq<u8>)
    ensures
        hex_text(bytes).len() == 2 * bytes.len(),
        forall|i: int|
            0 <= i < bytes.len() ==> {
                &&& 16 * digit_value(hex_text(bytes)[2 * i]) + digit_value(
                    hex_text(bytes)[2 * i + 1],
                )
                    == #[trigger] bytes[i]
                &&& 0 <= digit_value(hex_text(bytes)[2 * i + 1]) < 16
            },
    decreases bytes.len(),
{
    lemma_hex_length(bytes);
    if bytes.len() > 0 {
        let init = bytes.drop_last();
        law_digits_stand_for_their_bytes(init);
        let before = hex_text(init);
        let pair = hex_pair(bytes.last());
        assert forall|i: int| 0 <= i < bytes.len() implies {
            &&& 16 * digit_value(hex_text(bytes)[2 * i]) + digit_value(
                    hex_text(bytes)[2 * i + 1],
                )
                == #[trigger] bytes[i]
            &&& 0 <= digit_value(hex_text(bytes)[2 * i + 1]) < 16
        } by {
            if i < init.len() {
                assert(init[i] == bytes[i]);
                assert(hex_text(bytes)[2 * i] == before[2 * i]);
                assert(hex_text(bytes)[2 * i + 1] == before[2 * i + 1]);
            } else {
                let byte = bytes.last();
                assert(hex_text(bytes)[2 * i] == pair[0]);
                assert(hex_text(bytes)[2 * i + 1] == pair[1]);
                lemma_digit_value(byte as int / 16);
                lemma_digit_value(byte as int % 16);
            }
        }
    }
}

proof fn lemma_digit_value(value: int)
    requires
        0 <= value < 16,
    ensures
        digit_value(hex_digit(value)) == value,
{
}

/// Law: the state of a checkout is named after the checkout, made safe, a `-`, and the first five
/// bytes of the digest in hexadecimal. A checkout without a name that can be shown goes by
/// `external`. All of them lie in `external` below the default library.
pub proof fn law_outside_state_is_named_after_its_checkout(
    default_base: PathView,
    identity: PathView,
    digest: Seq<u8>,
)
    requires
        digest.len() == 32,
    ensures
        ({
            let name = if file_name_of(identity) is Some {
                file_name_of(identity)->0
            } else {
                "external"@
            };
            external_base(default_base, identity, digest) == child_of(
                child_of(default_base, "external"@),
                sanitized(name) + "-"@ + hex_text(digest.take(5)),
            )
        }),
        hex_text(digest.take(5)).len() == 10,
{
    lemma_hex_length(digest.take(5));
}

/// Law: a digest that is shorter than five bytes is used whole.
pub proof fn law_short_digests_are_used_whole(name: Seq<char>, digest: Seq<u8>)
    ensures
        digest.len() <= 5 ==> state_dir_name(name, digest) == sanitized(name) + "-"@ + hex_text(
            digest,
        ),
        digest.len() > 5 ==> state_dir_name(name, digest) == state_dir_name(name, digest.take(5)),
{
}

/// Law: what identifies a checkout that is there is its canonical form. One that is not there goes
/// by its own path if that is absolute, wherever one stands; by its path as seen from the current
/// directory if it is relative; and by that path alone where the current directory is unknown. Then
/// `.` and `..` are resolved by the text.
pub proof fn law_checkouts_are_identified_by_where_they_are(
    env: EnvironmentView,
    skills_root: PathView,
    canonical: Option<PathView>,
    current_dir: Option<PathView>,
)
    ensures
        ({
            let identity = identity_of(env, skills_root, canonical, current_dir);
            &&& canonical is Some ==> identity == canonical->0
            &&& canonical is None && absolute(env.platform, skills_root) ==> identity == lexical(
                skills_root,
            )
            &&& canonical is None && !absolute(env.platform, skills_root) && current_dir is Some
                ==> identity == lexical(joined(env.platform, current_dir->0, skills_root))
            &&& canonical is None && !absolute(env.platform, skills_root) && current_dir is None
                ==> identity == lexical(skills_root)
        }),
{
}

/// Law: what goes into the digest is the text of the path that identifies the checkout, so that
/// checkouts at different places are told apart by it, and the name is that of the same path.
pub proof fn law_outside_state_follows_the_identity(
    env: EnvironmentView,
    default_base: PathView,
    skills_root: PathView,
    canonical: Option<PathView>,
    current_dir: Option<PathView>,
)
    ensures
        ({
            let identity = identity_of(env, skills_root, canonical, current_dir);
            &&& outside_state(env, default_base, skills_root, canonical, current_dir)
                == external_base(
                default_base,
                identity,
                sha256(encode_utf8(text_of(env.platform, identity))),
            )
            &&& outside_state(env, default_base, skills_root, canonical, current_dir)
                == outside_state(env, default_base, identity, Some(identity), None)
        }),
{
}

} // verus!
