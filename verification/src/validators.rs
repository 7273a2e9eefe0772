//! Checks on names and identifiers that come in from users and stored data.

use vstd::prelude::*;
use vstd::string::StringSliceAdditionalSpecFns;
use vstd::utf8::encode_utf8;

verus! {

/// Whether `char::is_alphanumeric` holds of a character: it is alphabetic or numeric in
/// the Unicode sense.
pub uninterp spec fn char_alphanumeric(c: char) -> bool;

/// Whether a character is an ASCII letter or digit.
pub open spec fn ascii_alphanumeric(c: char) -> bool {
    ('a' <= c && c <= 'z') || ('A' <= c && c <= 'Z') || ('0' <= c && c <= '9')
}

/// Whether a character counts as alphanumeric: an ASCII character exactly when it is a
/// letter or a digit, any other by [char_alphanumeric].
pub open spec fn alphanumeric(c: char) -> bool {
    if (c as u32) < 128 {
        ascii_alphanumeric(c)
    } else {
        char_alphanumeric(c)
    }
}

/// Calls `char::is_alphanumeric`; its result is named [char_alphanumeric]. Of an ASCII
/// character it holds exactly for the letters and the digits.
#[verifier::external_body]
fn is_alphanumeric(c: char) -> (r: bool)
    ensures
        r == char_alphanumeric(c),
        (c as u32) < 128 ==> (r <==> ascii_alphanumeric(c)),
{
    c.is_alphanumeric()
}

/// The index of the first `.` in `s`, or its length when there is none.
pub open spec fn first_dot(s: Seq<char>) -> int
    decreases s.len(),
{
    if s.len() == 0 {
        0
    } else if s[0] == '.' {
        0
    } else {
        1 + first_dot(s.drop_first())
    }
}

proof fn lemma_first_dot(s: Seq<char>)
    ensures
        0 <= first_dot(s) <= s.len(),
        forall|k: int| 0 <= k < first_dot(s) ==> s[k] != '.',
        first_dot(s) < s.len() ==> s[first_dot(s)] == '.',
    decreases s.len(),
{
    if s.len() > 0 && s[0] != '.' {
        lemma_first_dot(s.drop_first());
        assert forall|k: int| 0 <= k < first_dot(s) implies s[k] != '.' by {
            if k > 0 {
                assert(s[k] == s.drop_first()[k - 1]);
            }
        }
    }
}

/// Whether a label of a DNS name is acceptable: not empty, at most 63 bytes long, and
/// made of alphanumeric characters and `-` only.
pub open spec fn valid_label(label: Seq<char>) -> bool {
    &&& label.len() > 0
    &&& encode_utf8(label).len() <= 63
    &&& forall|k: int| 0 <= k < label.len() ==> (alphanumeric(#[trigger] label[k]) || label[k] == '-')
}

/// Whether every `.`-separated label of `s` is acceptable (see [valid_label]).
pub open spec fn valid_labels(s: Seq<char>) -> bool
    decreases s.len(),
{
    let i = first_dot(s);
    if i < 0 || i > s.len() {
        false
    } else if i == s.len() {
        valid_label(s)
    } else {
        valid_label(s.take(i)) && valid_labels(s.skip(i + 1))
    }
}

/// Whether `name` is an acceptable DNS name: it holds a `.`, it is at most 253 bytes long,
/// it is not empty, and each of its `.`-separated labels is acceptable.
pub open spec fn valid_dns_name(name: Seq<char>) -> bool {
    &&& name.contains('.')
    &&& encode_utf8(name).len() <= 253
    &&& name.len() > 0
    &&& valid_labels(name)
}

fn label_chars_ok(name: &str, start: usize, end: usize) -> (r: bool)
    requires
        start <= end <= name@.len(),
    ensures
        r <==> forall|k: int| start <= k < end ==> (alphanumeric(#[trigger] name@[k]) || name@[k] == '-'),
{
    let mut k = start;
    while k < end
        invariant
            start <= k <= end <= name@.len(),
            forall|m: int| start <= m < k ==> (alphanumeric(#[trigger] name@[m]) || name@[m] == '-'),
        decreases end - k,
    {
        let c = name.get_char(k);
        if !(is_alphanumeric(c) || c == '-') {
            return false;
        }
        k = k + 1;
    }
    true
}

fn next_dot(name: &str, start: usize) -> (j: usize)
    requires
        start <= name@.len(),
    ensures
        j as int == start + first_dot(name@.skip(start as int)),
        start <= j <= name@.len(),
{
    let len = name.unicode_len();
    let mut j = start;
    proof {
        lemma_first_dot(name@.skip(start as int));
    }
    while j < len
        invariant
            len == name@.len(),
            start <= j <= len,
            forall|k: int| start <= k < j ==> name@[k] != '.',
            j - start <= first_dot(name@.skip(start as int)),
            0 <= first_dot(name@.skip(start as int)) <= name@.len() - start,
            forall|k: int| 0 <= k < first_dot(name@.skip(start as int)) ==> name@.skip(start as int)[k] != '.',
            first_dot(name@.skip(start as int)) < name@.len() - start ==> name@.skip(start as int)[first_dot(name@.skip(start as int))] == '.',
        decreases len - j,
    {
        if name.get_char(j) == '.' {
            assert(name@.skip(start as int)[j - start] == '.');
            return j;
        }
        j = j + 1;
    }
    j
}

/// Checks that a name is an acceptable DNS name, see [valid_dns_name].
pub fn dns_name(name: &str) -> (r: bool)
    ensures
        r == valid_dns_name(name@),
{
    let len = name.unicode_len();
    let first = next_dot(name, 0);
    proof {
        assert(name@.skip(0) =~= name@);
        lemma_first_dot(name@);
    }
    if first == len {
        assert(!name@.contains('.'));
        return false;
    }
    assert(name@.contains('.')) by {
        assert(name@[first as int] == '.');
    }
    if name.as_bytes().len() > 253 {
        return false;
    }
    if len == 0 {
        return false;
    }
    let mut start: usize = 0;
    while start <= len
        invariant
            len == name@.len(),
            start <= len,
            valid_labels(name@) <==> valid_labels(name@.skip(start as int)),
            name@.contains('.'),
            encode_utf8(name@).len() <= 253,
            name@.len() > 0,
        decreases len - start,
    {
        let end = next_dot(name, start);
        let ghost rest = name@.skip(start as int);
        proof {
            lemma_first_dot(rest);
            assert(name@.subrange(start as int, end as int) =~= rest.take(end - start));
        }
        let part = name.substring_char(start, end);
        if end == start {
            return false;
        }
        if part.as_bytes().len() > 63 {
            return false;
        }
        if !label_chars_ok(name, start, end) {
            proof {
                let k = choose|k: int| start <= k < end && !(alphanumeric(#[trigger] name@[k]) || name@[k] == '-');
                assert(rest.take(end - start)[k - start] == name@[k]);
            }
            return false;
        }
        assert(valid_label(rest.take(end - start))) by {
            assert forall|k: int| 0 <= k < rest.take(end - start).len() implies (alphanumeric(
                #[trigger] rest.take(end - start)[k],
            ) || rest.take(end - start)[k] == '-') by {
                assert(rest.take(end - start)[k] == name@[start + k]);
            }
        }
        if end == len {
            assert(rest.take(end - start) =~= rest);
            return true;
        }
        proof {
            assert(rest.skip(end - start + 1) =~= name@.skip(end + 1));
        }
        start = end + 1;
    }
    true
}

/// Whether a character is an ASCII hexadecimal digit, either case.
pub open spec fn hex_char(c: char) -> bool {
    ('0' <= c && c <= '9') || ('a' <= c && c <= 'f') || ('A' <= c && c <= 'F')
}

/// Whether a text looks like a UUID: 36 bytes with `-` at bytes 8, 13, 18 and 23 and hex
/// digits for every other character, or 32 hex digits.
pub open spec fn uuid_like(value: Seq<char>) -> bool {
    let b = encode_utf8(value);
    if b.len() == 36 {
        b[8] == 45 && b[13] == 45 && b[18] == 45 && b[23] == 45 && forall|k: int|
            0 <= k < value.len() ==> (#[trigger] value[k] == '-' || hex_char(value[k]))
    } else if b.len() == 32 {
        forall|k: int| 0 <= k < value.len() ==> hex_char(#[trigger] value[k])
    } else {
        false
    }
}

fn all_hex_or_dash(value: &str, allow_dash: bool) -> (r: bool)
    ensures
        r <==> forall|k: int| 0 <= k < value@.len() ==> ((allow_dash && #[trigger] value@[k] == '-') || hex_char(value@[k])),
{
    let len = value.unicode_len();
    let mut k: usize = 0;
    while k < len
        invariant
            len == value@.len(),
            k <= len,
            forall|m: int| 0 <= m < k ==> ((allow_dash && #[trigger] value@[m] == '-') || hex_char(value@[m])),
        decreases len - k,
    {
        let c = value.get_char(k);
        let hex = ('0' <= c && c <= '9') || ('a' <= c && c <= 'f') || ('A' <= c && c <= 'F');
        if !((allow_dash && c == '-') || hex) {
            return false;
        }
        k = k + 1;
    }
    true
}

/// Whether a stored identifier looks like a UUID in text form, see [uuid_like].
pub fn looks_like_uuid(value: &str) -> (r: bool)
    ensures
        r == uuid_like(value@),
{
    let bytes = value.as_bytes();
    let len = bytes.len();
    if len == 36 {
        if bytes[8] == 45 && bytes[13] == 45 && bytes[18] == 45 && bytes[23] == 45 {
            return all_hex_or_dash(value, true);
        }
        false
    } else if len == 32 {
        all_hex_or_dash(value, false)
    } else {
        false
    }
}

} // verus!
