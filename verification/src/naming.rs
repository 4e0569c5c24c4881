//! The names of instances.
use crate::config::InnerConfig;
use crate::text::{chars_of, contains_text, join2, join3, join4, occurs_at, string_of};
use vstd::arithmetic::div_mod::lemma_div_denominator;
use vstd::arithmetic::power::{lemma_pow0, lemma_pow_positive, pow};
use vstd::prelude::*;

verus! {

/// The hexadecimal digit `d`.
pub open spec fn hex_digit(d: nat) -> char {
    if d < 10 {
        (48 + d) as char
    } else {
        (87 + d) as char
    }
}

/// The four bits of a UUID that have `k` times four bits below them.
pub open spec fn nibble(uuid: nat, k: nat) -> nat {
    ((uuid as int / pow(16, k)) % 16) as nat
}

/// How many hyphens stand before position `i` of a UUID's text.
pub open spec fn hyphens_before(i: int) -> int {
    if i <= 8 {
        0
    } else if i <= 13 {
        1
    } else if i <= 18 {
        2
    } else if i <= 23 {
        3
    } else {
        4
    }
}

/// A hyphen stands at position `i` of a UUID's text.
pub open spec fn is_hyphen(i: int) -> bool {
    i == 8 || i == 13 || i == 18 || i == 23
}

/// The text of a UUID: its hexadecimal digits, the highest first, in groups of eight, four, four,
/// four and twelve with a hyphen between each two.
pub open spec fn hyphenated(uuid: u128) -> Seq<char> {
    Seq::new(
        36,
        |i: int|
            if is_hyphen(i) {
                '-'
            } else {
                hex_digit(nibble(uuid as nat, (31 - (i - hyphens_before(i))) as nat))
            },
    )
}

/// Displays a `uuid::Uuid`, by `to_string`: its digits in lower-case hexadecimal, hyphenated.
#[verifier::external_body]
fn display_uuid(uuid: u128) -> (r: String)
    ensures
        r@ == hyphenated(uuid),
{
    uuid::Uuid::from_u128(uuid).to_string()
}

/// The text of a server's UUID.
pub fn uuid_text(uuid: u128) -> (r: String)
    ensures
        r@ == hyphenated(uuid),
{
    display_uuid(uuid)
}

/// An ASCII letter.
pub open spec fn is_letter(c: char) -> bool {
    'a' <= c <= 'z' || 'A' <= c <= 'Z'
}

/// An ASCII letter, an ASCII digit or a hyphen.
pub open spec fn is_name_char(c: char) -> bool {
    is_letter(c) || '0' <= c <= '9' || c == '-'
}

/// Incus accepts this as the name of an instance: it starts with a letter, is at most 63
/// characters long, and consists of letters, digits and hyphens.
pub open spec fn is_valid_name(name: Seq<char>) -> bool {
    &&& 0 < name.len() <= 63
    &&& is_letter(name[0])
    &&& forall|i: int| 0 <= i < name.len() ==> is_name_char(#[trigger] name[i])
}

/// `s`, or its first `n` characters where it is longer.
pub open spec fn at_most(s: Seq<char>, n: int) -> Seq<char> {
    if s.len() <= n {
        s
    } else {
        s.take(n)
    }
}

/// The part of a server's name that its instance's name can hold.
pub open spec fn name_part(server_name: Seq<char>) -> Seq<char> {
    at_most(server_name.filter(|c: char| is_name_char(c)), 55)
}

/// The name of a server's instance.
pub open spec fn instance_name_of(uuid: u128, with_name: bool, server_name: Seq<char>) -> Seq<
    char,
> {
    if with_name {
        at_most("w-"@ + name_part(server_name) + "-"@ + hyphenated(uuid), 63)
    } else {
        "w-"@ + hyphenated(uuid)
    }
}

/// Keeps the characters of a server's name that an instance's name may hold, 55 at most.
fn filter_name(server_name: &str) -> (r: String)
    ensures
        r@ == name_part(server_name@),
{
    let chars = chars_of(server_name);
    let ghost keep = |c: char| is_name_char(c);
    let mut kept: Vec<char> = Vec::new();
    proof {
        reveal(Seq::filter);
        assert(server_name@.take(0) =~= Seq::empty());
    }
    for i in 0..chars.len()
        invariant
            chars@ == server_name@,
            keep == (|c: char| is_name_char(c)),
            kept@ == at_most(server_name@.take(i as int).filter(keep), 55),
    {
        let c: char = chars[i];
        proof {
            reveal(Seq::filter);
            assert(server_name@.take(i + 1).drop_last() =~= server_name@.take(i as int));
        }
        let ghost before = server_name@.take(i as int).filter(keep);
        if ('a' <= c && c <= 'z') || ('A' <= c && c <= 'Z') || ('0' <= c && c <= '9') || c == '-' {
            assert(keep(c));
            assert(server_name@.take(i + 1).filter(keep) == before.push(c));
            if kept.len() < 55 {
                kept.push(c);
            }
            assert(kept@ =~= at_most(before.push(c), 55));
        } else {
            assert(!keep(c));
            assert(server_name@.take(i + 1).filter(keep) == before);
        }
    }
    assert(server_name@.take(server_name@.len() as int) =~= server_name@);
    string_of(&kept, 0, kept.len())
}

/// The name of a server's instance. Incus wants it to start with a letter and to consist of at
/// most 63 letters, digits and hyphens.
pub fn instance_name(uuid: u128, cfg: &InnerConfig, server_name: &str) -> (r: String)
    ensures
        r@ == instance_name_of(
            uuid,
            cfg.incus.server_name_in_container_name,
            server_name@,
        ),
{
    let id = uuid_text(uuid);
    if cfg.incus.server_name_in_container_name {
        let part = filter_name(server_name);
        let name = chars_of(join4("w-", part.as_str(), "-", id.as_str()).as_str());
        let end: usize = if name.len() < 63 {
            name.len()
        } else {
            63
        };
        assert(name@.subrange(0, end as int) =~= at_most(name@, 63));
        string_of(&name, 0, end)
    } else {
        join2("w-", id.as_str())
    }
}

/// The name of the instance in which a server is installed.
pub open spec fn installer_name_of(uuid: u128) -> Seq<char> {
    "w-"@ + hyphenated(uuid) + "-installer"@
}

/// The name of the instance in which a server is installed.
pub fn installer_name(uuid: u128) -> (r: String)
    ensures
        r@ == installer_name_of(uuid),
{
    let id = uuid_text(uuid);
    join3("w-", id.as_str(), "-installer")
}

/// The name of an instance in which a script is run for a server.
pub open spec fn script_name_of(uuid: u128, suffix: Seq<char>) -> Seq<char> {
    "w-"@ + hyphenated(uuid) + "-script-"@ + suffix
}

/// The name of an instance in which a script is run for a server, with the given suffix.
pub fn script_name(uuid: u128, suffix: &str) -> (r: String)
    ensures
        r@ == script_name_of(uuid, suffix@),
{
    let id = uuid_text(uuid);
    join4("w-", id.as_str(), "-script-", suffix)
}

/// A suffix that tells the instances of one server's scripts apart: eight letters and digits.
pub open spec fn is_suffix(suffix: Seq<char>) -> bool {
    &&& suffix.len() == 8
    &&& forall|i: int|
        0 <= i < suffix.len() ==> is_letter(#[trigger] suffix[i]) || '0' <= suffix[i] <= '9'
}

/// Draws eight characters by `rand::distr::Alphanumeric.sample_string` from `rand::rng()`. Each is
/// an ASCII letter or digit; which ones come is left to chance. Where the operating system gives no
/// randomness to start from, the call panics.
#[verifier::external_body]
fn random_suffix() -> (r: String)
    ensures
        is_suffix(r@),
{
    rand::distr::SampleString::sample_string(&rand::distr::Alphanumeric, &mut rand::rng(), 8)
}

/// The name of a new instance in which a script is run for a server, with a random suffix.
pub fn new_script_name(uuid: u128) -> (r: String)
    ensures
        exists|suffix: Seq<char>| is_suffix(suffix) && r@ == #[trigger] script_name_of(uuid, suffix),
{
    let suffix = random_suffix();
    script_name(uuid, suffix.as_str())
}

/// Every character of a UUID's text may stand in a name, and the first is no hyphen.
proof fn lemma_hyphenated_chars(uuid: u128)
    ensures
        hyphenated(uuid).len() == 36,
        forall|i: int| 0 <= i < 36 ==> is_name_char(#[trigger] hyphenated(uuid)[i]),
        forall|i: int| 0 <= i < 36 && !is_hyphen(i) ==> #[trigger] hyphenated(uuid)[i] != '-',
{
    assert forall|i: int| 0 <= i < 36 implies is_name_char(#[trigger] hyphenated(uuid)[i]) && (
    !is_hyphen(i) ==> hyphenated(uuid)[i] != '-') by {
        let d = nibble(uuid as nat, (31 - (i - hyphens_before(i))) as nat);
        assert(0 <= d < 16);
    }
}

/// The name of every server's instance is one that Incus accepts.
pub proof fn law_instance_name_is_valid(uuid: u128, with_name: bool, server_name: Seq<char>)
    ensures
        is_valid_name(instance_name_of(uuid, with_name, server_name)),
{
    lemma_hyphenated_chars(uuid);
    reveal_strlit("w-");
    reveal_strlit("-");
    let keep = |c: char| is_name_char(c);
    assert forall|i: int| 0 <= i < name_part(server_name).len() implies is_name_char(
        #[trigger] name_part(server_name)[i],
    ) by {
        server_name.lemma_filter_pred(keep, i);
        assert(keep(server_name.filter(keep)[i]));
    }
}

/// The name of every installer's instance is one that Incus accepts.
pub proof fn law_installer_name_is_valid(uuid: u128)
    ensures
        is_valid_name(installer_name_of(uuid)),
{
    lemma_hyphenated_chars(uuid);
    reveal_strlit("w-");
    reveal_strlit("-installer");
}

/// The name of every script's instance is one that Incus accepts, whatever its suffix.
pub proof fn law_script_name_is_valid(uuid: u128, suffix: Seq<char>)
    requires
        is_suffix(suffix),
    ensures
        is_valid_name(script_name_of(uuid, suffix)),
{
    lemma_hyphenated_chars(uuid);
    reveal_strlit("w-");
    reveal_strlit("-script-");
}

/// A text that stands between two others occurs in the whole.
proof fn lemma_occurs(before: Seq<char>, needle: Seq<char>, after: Seq<char>)
    ensures
        contains_text(before + needle + after, needle),
{
    let whole = before + needle + after;
    let i = before.len() as int;
    assert(whole.subrange(i, i + needle.len()) =~= needle);
    assert(occurs_at(whole, needle, i));
}

/// The name of a server's instance holds the server's UUID, by which the instance is found again.
/// (Where more than 24 characters of the server's name go into it, the UUID is cut off.)
pub proof fn law_instance_name_holds_uuid(uuid: u128, with_name: bool, server_name: Seq<char>)
    requires
        with_name ==> name_part(server_name).len() <= 24,
    ensures
        contains_text(instance_name_of(uuid, with_name, server_name), hyphenated(uuid)),
{
    let id = hyphenated(uuid);
    reveal_strlit("w-");
    reveal_strlit("-");
    if with_name {
        let front = "w-"@ + name_part(server_name) + "-"@;
        assert(instance_name_of(uuid, with_name, server_name) =~= front + id + Seq::empty());
        lemma_occurs(front, id, Seq::empty());
    } else {
        assert("w-"@ + id =~= "w-"@ + id + Seq::empty());
        lemma_occurs("w-"@, id, Seq::empty());
    }
}

/// The names of a server's installer and scripts hold the server's UUID.
pub proof fn law_helper_names_hold_uuid(uuid: u128, suffix: Seq<char>)
    ensures
        contains_text(installer_name_of(uuid), hyphenated(uuid)),
        contains_text(script_name_of(uuid, suffix), hyphenated(uuid)),
{
    let id = hyphenated(uuid);
    lemma_occurs("w-"@, id, "-installer"@);
    assert(script_name_of(uuid, suffix) =~= "w-"@ + id + ("-script-"@ + suffix));
    lemma_occurs("w-"@, id, "-script-"@ + suffix);
}

/// The name of a server's installer says that it is one.
pub proof fn law_installer_is_marked(uuid: u128)
    ensures
        contains_text(installer_name_of(uuid), "installer"@),
{
    reveal_strlit("-installer");
    reveal_strlit("installer");
    reveal_strlit("-");
    let front = "w-"@ + hyphenated(uuid) + "-"@;
    assert(installer_name_of(uuid) =~= front + "installer"@ + Seq::empty());
    lemma_occurs(front, "installer"@, Seq::empty());
}

/// Numbers with the same hexadecimal digits are the same.
proof fn lemma_same_digits(x: nat, y: nat, n: nat)
    requires
        x < pow(16, n),
        y < pow(16, n),
        forall|k: nat| k < n ==> #[trigger] nibble(x, k) == nibble(y, k),
    ensures
        x == y,
    decreases n,
{
    lemma_pow0(16);
    if n > 0 {
        let m = (n - 1) as nat;
        assert(nibble(x, 0) == nibble(y, 0));
        assert(pow(16, n) == 16 * pow(16, m)) by {
            reveal(pow);
        }
        let x1 = (x / 16) as nat;
        let y1 = (y / 16) as nat;
        assert(x1 < pow(16, m) && y1 < pow(16, m));
        assert forall|k: nat| k < m implies #[trigger] nibble(x1, k) == nibble(y1, k) by {
            lemma_next_digit(x, k);
            lemma_next_digit(y, k);
            assert(nibble(x, k + 1) == nibble(y, k + 1));
        }
        lemma_same_digits(x1, y1, m);
    }
}

/// To leave out the lowest digit is to move the others down.
proof fn lemma_next_digit(x: nat, k: nat)
    ensures
        nibble((x / 16) as nat, k) == nibble(x, k + 1),
{
    lemma_pow_positive(16, k);
    assert(pow(16, k + 1) == 16 * pow(16, k)) by {
        reveal(pow);
    }
    lemma_div_denominator(x as int, 16, pow(16, k));
}

/// Different UUIDs have different texts.
pub proof fn law_uuid_text_is_unique(a: u128, b: u128)
    requires
        hyphenated(a) == hyphenated(b),
    ensures
        a == b,
{
    assert forall|k: nat| k < 32 implies #[trigger] nibble(a as nat, k) == nibble(
        b as nat,
        k,
    ) by {
        let d = 31 - k;
        let i: int = if d < 8 {
            d
        } else if d < 12 {
            d + 1
        } else if d < 16 {
            d + 2
        } else if d < 20 {
            d + 3
        } else {
            d + 4
        };
        assert(!is_hyphen(i) && i - hyphens_before(i) == d);
        assert((31 - (i - hyphens_before(i))) as nat == k);
        assert(hyphenated(a)[i] == hex_digit(nibble(a as nat, k)));
        assert(hyphenated(b)[i] == hex_digit(nibble(b as nat, k)));
        assert(hex_digit(nibble(a as nat, k)) == hex_digit(nibble(b as nat, k)));
    }
    assert(pow(16, 32) == 0x1_0000_0000_0000_0000_0000_0000_0000_0000) by {
        reveal_with_fuel(pow, 33);
    }
    lemma_same_digits(a as nat, b as nat, 32);
}

/// A hexadecimal digit, in lower case.
spec fn is_hex(c: char) -> bool {
    '0' <= c <= '9' || 'a' <= c <= 'f'
}

/// A UUID's text consists of hexadecimal digits and hyphens.
proof fn lemma_hyphenated_hex(uuid: u128)
    ensures
        hyphenated(uuid).len() == 36,
        forall|i: int| 0 <= i < 36 && is_hyphen(i) ==> #[trigger] hyphenated(uuid)[i] == '-',
        forall|i: int| 0 <= i < 36 && !is_hyphen(i) ==> is_hex(#[trigger] hyphenated(uuid)[i]),
{
    assert forall|i: int| 0 <= i < 36 && !is_hyphen(i) implies is_hex(
        #[trigger] hyphenated(uuid)[i],
    ) by {
        let d = nibble(uuid as nat, (31 - (i - hyphens_before(i))) as nat);
        assert(0 <= d < 16);
    }
}

/// A name with a UUID and a short tail that is no part of a UUID holds that UUID and no other.
proof fn lemma_name_holds_one_uuid(a: u128, b: u128, tail: Seq<char>)
    requires
        tail.len() <= 36,
        tail.len() > 0 ==> tail[0] == '-',
        tail.len() > 1 ==> !is_hex(tail[1]) && tail[1] != '-',
    ensures
        contains_text("w-"@ + hyphenated(a) + tail, hyphenated(b)) <==> a == b,
{
    reveal_strlit("w-");
    let whole = "w-"@ + hyphenated(a) + tail;
    let id = hyphenated(b);
    lemma_hyphenated_hex(a);
    lemma_hyphenated_hex(b);
    if a == b {
        lemma_occurs("w-"@, id, tail);
    }
    if contains_text(whole, id) {
        let i = choose|i: int| occurs_at(whole, id, i);
        assert forall|k: int| 0 <= k < 36 implies #[trigger] id[k] == whole[i + k] by {
            assert(whole.subrange(i, i + 36)[k] == whole[i + k]);
        }
        assert(is_hex(id[0]));
        assert(i >= 2);
        if i > 3 {
            assert(id[39 - i] == whole[39]);
            assert(whole[39] == tail[1]);
        } else if i == 3 {
            assert(id[35] == whole[38]);
            assert(whole[38] == tail[0]);
            assert(is_hex(id[35]));
        } else {
            assert(whole.subrange(2, 38) =~= hyphenated(a));
            law_uuid_text_is_unique(a, b);
        }
    }
}

/// Where the server's name is not part of it, the name of a server's instance holds the UUID of
/// that server and of no other: looking for one server's instance by UUID never finds another's.
pub proof fn law_plain_names_are_apart(a: u128, server_name: Seq<char>, b: u128)
    ensures
        contains_text(instance_name_of(a, false, server_name), hyphenated(b)) <==> a == b,
{
    let name = instance_name_of(a, false, server_name);
    assert(name =~= "w-"@ + hyphenated(a) + Seq::empty());
    lemma_name_holds_one_uuid(a, b, Seq::empty());
}

/// The names of a server's installer and of its scripts' instances hold the UUID of that server and
/// of no other.
pub proof fn law_helper_names_are_apart(a: u128, b: u128, suffix: Seq<char>)
    requires
        is_suffix(suffix),
    ensures
        contains_text(installer_name_of(a), hyphenated(b)) <==> a == b,
        contains_text(script_name_of(a, suffix), hyphenated(b)) <==> a == b,
{
    reveal_strlit("-installer");
    reveal_strlit("-script-");
    lemma_name_holds_one_uuid(a, b, "-installer"@);
    assert(script_name_of(a, suffix) =~= "w-"@ + hyphenated(a) + ("-script-"@ + suffix));
    lemma_name_holds_one_uuid(a, b, "-script-"@ + suffix);
}

/// Where the server's name is not part of it, the name of a server's instance is not taken for an
/// installer's.
pub proof fn law_plain_name_is_no_installer(uuid: u128, server_name: Seq<char>)
    ensures
        !contains_text(instance_name_of(uuid, false, server_name), "installer"@),
{
    reveal_strlit("w-");
    reveal_strlit("installer");
    let name = instance_name_of(uuid, false, server_name);
    lemma_hyphenated_hex(uuid);
    assert forall|i: int| !occurs_at(name, "installer"@, i) by {
        if occurs_at(name, "installer"@, i) {
            assert(name.subrange(i, i + 9)[0] == name[i]);
            assert(name[i] == 'i');
            if i >= 2 {
                assert(name[i] == hyphenated(uuid)[i - 2]);
                assert(is_hyphen(i - 2) || !is_hyphen(i - 2));
            }
        }
    }
}

/// What instances are named: by the server's UUID, with the server's name before it where the
/// settings say so, cut after 63 characters; that of an installer and of a script by their kind
/// behind the UUID.
pub proof fn law_names_are_made_of_their_parts(
    uuid: u128,
    server_name: Seq<char>,
    suffix: Seq<char>,
)
    ensures
        instance_name_of(uuid, false, server_name) == "w-"@ + hyphenated(uuid),
        ({
            let full = "w-"@ + name_part(server_name) + "-"@ + hyphenated(uuid);
            &&& full.len() <= 63 ==> instance_name_of(uuid, true, server_name) == full
            &&& full.len() > 63 ==> instance_name_of(uuid, true, server_name) == full.take(63)
        }),
        installer_name_of(uuid) == "w-"@ + hyphenated(uuid) + "-installer"@,
        script_name_of(uuid, suffix) == "w-"@ + hyphenated(uuid) + "-script-"@ + suffix,
{
}

/// A server's name becomes part of its instance's name with its letters, digits and hyphens, all of
/// them and in their order, as far as 55 go.
pub proof fn law_name_part_keeps_what_names_may_hold(server_name: Seq<char>)
    ensures
        ({
            let kept = server_name.filter(
                |c: char|
                    'a' <= c <= 'z' || 'A' <= c <= 'Z' || '0' <= c <= '9' || c == '-',
            );
            &&& kept.len() <= 55 ==> name_part(server_name) == kept
            &&& kept.len() > 55 ==> name_part(server_name) == kept.take(55)
        }),
{
    let plain = |c: char| 'a' <= c <= 'z' || 'A' <= c <= 'Z' || '0' <= c <= '9' || c == '-';
    let named = |c: char| is_name_char(c);
    assert forall|c: char| #[trigger] plain(c) == named(c) by {}
    assert(plain =~= named);
}

/// The text of a UUID: 36 characters, with hyphens after eight, four, four and four digits, and for
/// every other character the next digit of the number, the highest first, in lower-case hexadecimal.
pub proof fn law_uuid_text_shows_each_digit(uuid: u128, i: int)
    requires
        0 <= i < 36,
    ensures
        hyphenated(uuid).len() == 36,
        i == 8 || i == 13 || i == 18 || i == 23 ==> hyphenated(uuid)[i] == '-',
        !(i == 8 || i == 13 || i == 18 || i == 23) ==> {
            let hyphens: int = if i < 8 {
                0
            } else if i < 13 {
                1
            } else if i < 18 {
                2
            } else if i < 23 {
                3
            } else {
                4
            };
            let d = (uuid as int / pow(16, (31 - i + hyphens) as nat)) % 16;
            hyphenated(uuid)[i] == if d < 10 {
                (48 + d) as char
            } else {
                (87 + d) as char
            }
        },
{
}

/// The suffix of a script's name is eight letters and digits.
pub proof fn law_suffixes_are_short_and_plain(suffix: Seq<char>, i: int)
    requires
        is_suffix(suffix),
        0 <= i < suffix.len(),
    ensures
        suffix.len() == 8,
        'a' <= suffix[i] <= 'z' || 'A' <= suffix[i] <= 'Z' || '0' <= suffix[i] <= '9',
{
    assert(is_letter(suffix[i]) || '0' <= suffix[i] <= '9');
}

} // verus!
