//! Domain names on the wire: turning dotted names into length-prefixed labels, with
//! RFC1035 section 4.1.4 compression pointers, and reading query names back.

use crate::bytes::{be_bytes, extend_bytes, push_be};
use crate::error::GoatNsError;
use crate::external::{lowered, str_from_utf8, str_to_lowercase};
use crate::question::labels_nonempty;
use vstd::prelude::*;
use vstd::string::StringSliceAdditionalSpecFns;
use vstd::utf8::{decode_utf8, encode_utf8, valid_utf8};

verus! {

/// The byte value of `.`
pub const DOT: u8 = 46;

/// The encoded form of a name: either ending in a compression pointer, or a full
/// sequence of labels terminated by the root label.
#[derive(Debug, PartialEq, Eq, Clone)]
pub enum NameAsBytes {
    Compressed(Vec<u8>),
    Uncompressed(Vec<u8>),
}

/// The abstract value of a [NameAsBytes].
pub enum NameForm {
    Compressed(Seq<u8>),
    Uncompressed(Seq<u8>),
}

impl View for NameAsBytes {
    type V = NameForm;

    open spec fn view(&self) -> NameForm {
        match self {
            NameAsBytes::Compressed(v) => NameForm::Compressed(v@),
            NameAsBytes::Uncompressed(v) => NameForm::Uncompressed(v@),
        }
    }
}

/// The bytes held by either form.
pub open spec fn form_bytes(f: NameForm) -> Seq<u8> {
    match f {
        NameForm::Compressed(v) => v,
        NameForm::Uncompressed(v) => v,
    }
}

/// The bytes of either form with one null byte appended to the uncompressed form.
pub open spec fn form_bytes_with_trailing_null(f: NameForm) -> Seq<u8> {
    match f {
        NameForm::Compressed(v) => v,
        NameForm::Uncompressed(v) => v.push(0),
    }
}

impl NameAsBytes {
    /// Sometimes you want the trailing null to be added!
    pub fn as_bytes_with_trailing_null(&self) -> (r: Vec<u8>)
        ensures
            r@ == form_bytes_with_trailing_null(self@),
    {
        match self {
            NameAsBytes::Compressed(value) => value.clone(),
            NameAsBytes::Uncompressed(value) => {
                let mut v = value.clone();
                v.push(0);
                v
            },
        }
    }

    /// The bytes of either form.
    pub fn into_bytes(self) -> (r: Vec<u8>)
        ensures
            r@ == form_bytes(self@),
    {
        match self {
            NameAsBytes::Compressed(value) => value,
            NameAsBytes::Uncompressed(value) => value,
        }
    }

    /// Whether the held bytes equal `other`, whichever the form.
    pub fn eq_bytes(&self, other: &Vec<u8>) -> (r: bool)
        ensures
            r == (form_bytes(self@) == other@),
    {
        match self {
            NameAsBytes::Compressed(value) => crate::bytes::bytes_equal(value.as_slice(), other.as_slice()),
            NameAsBytes::Uncompressed(value) => crate::bytes::bytes_equal(value.as_slice(), other.as_slice()),
        }
    }
}

/// The index of the first `.` in `s`, or `s.len()` if there is none.
pub open spec fn dot_index(s: Seq<u8>) -> int
    decreases s.len(),
{
    if s.len() == 0 {
        0
    } else if s[0] == DOT {
        0
    } else {
        1 + dot_index(s.drop_first())
    }
}

pub proof fn lemma_dot_index(s: Seq<u8>)
    ensures
        0 <= dot_index(s) <= s.len(),
        dot_index(s) < s.len() ==> s[dot_index(s)] == DOT,
        forall|k: int| 0 <= k < dot_index(s) ==> s[k] != DOT,
    decreases s.len(),
{
    if s.len() > 0 && s[0] != DOT {
        lemma_dot_index(s.drop_first());
        assert forall|k: int| 0 <= k < dot_index(s) implies s[k] != DOT by {
            if k > 0 {
                assert(s[k] == s.drop_first()[k - 1]);
            }
        }
    }
}

/// The dot-separated labels of `s`, each as a length octet and its bytes; `None` if a
/// label is longer than 63 octets.
pub open spec fn encode_labels(s: Seq<u8>) -> Option<Seq<u8>>
    decreases s.len(),
{
    let i = dot_index(s);
    if i > 63 {
        None
    } else if i >= s.len() {
        Some(seq![i as u8] + s)
    } else {
        proof {
            lemma_dot_index(s);
        }
        match encode_labels(s.skip(i + 1)) {
            Some(rest) => Some(seq![i as u8] + s.take(i) + rest),
            None => None,
        }
    }
}

/// A compression pointer to offset `target`: the two top bits set over the offset.
pub open spec fn pointer_bytes(target: u16) -> Seq<u8> {
    be_bytes((0xC000u16 | target) as int, 2)
}

/// Whether `name` is a proper subdomain of the non-empty `reference`, ie it ends in a
/// dot followed by `reference`.
pub open spec fn is_subdomain_of(name: Seq<u8>, reference: Seq<u8>) -> bool {
    &&& reference.len() > 0
    &&& name.len() > reference.len()
    &&& name[name.len() - reference.len() - 1] == DOT
    &&& name.skip(name.len() - reference.len()) == reference
}

/// How a name is put on the wire.
///
/// With a pointer target but no reference name, the name is the pointer alone (it is
/// known to be the name at the target). With both, a name equal to the non-empty
/// reference becomes the pointer, and a proper subdomain of it becomes its own leading
/// labels followed by the pointer. Otherwise the name is written out as labels ending in
/// the root label. `None` when a label that must be written is over 63 octets.
pub open spec fn name_form(
    name: Seq<u8>,
    target: Option<u16>,
    reference: Option<Seq<u8>>,
) -> Option<NameForm> {
    match target {
        Some(t) => match reference {
            None => Some(NameForm::Compressed(pointer_bytes(t))),
            Some(r) => if r.len() > 0 && name == r {
                Some(NameForm::Compressed(pointer_bytes(t)))
            } else if is_subdomain_of(name, r) {
                match encode_labels(name.take(name.len() - r.len() - 1)) {
                    Some(prefix) => Some(NameForm::Compressed(prefix + pointer_bytes(t))),
                    None => None,
                }
            } else {
                uncompressed_form(name)
            },
        },
        None => uncompressed_form(name),
    }
}

/// A name written out in full, ending in the root label.
pub open spec fn uncompressed_form(name: Seq<u8>) -> Option<NameForm> {
    match encode_labels(name) {
        Some(labels) => Some(NameForm::Uncompressed(labels.push(0))),
        None => None,
    }
}

/// The bytes of an optional reference name.
pub open spec fn opt_bytes(o: Option<&Vec<u8>>) -> Option<Seq<u8>> {
    match o {
        Some(v) => Some(v@),
        None => None,
    }
}

/// The position of the first `.` at or after `start`, or the length of `name`.
fn find_dot(name: &[u8], start: usize) -> (j: usize)
    requires
        start <= name@.len(),
    ensures
        j - start == dot_index(name@.skip(start as int)),
        start <= j <= name@.len(),
{
    let ghost s = name@.skip(start as int);
    proof {
        lemma_dot_index(s);
    }
    let mut j = start;
    while j < name.len() && name[j] != DOT
        invariant
            start <= j <= name@.len(),
            forall|k: int| start <= k < j ==> name@[k] != DOT,
        decreases name@.len() - j,
    {
        j = j + 1;
    }
    proof {
        let d = dot_index(s);
        if d < j - start {
            assert(s[d] == name@[start + d]);
        }
        if d > j - start {
            assert(s[j - start] == name@[j as int]);
        }
    }
    j
}

proof fn lemma_encode_labels_step(s: Seq<u8>)
    requires
        dot_index(s) <= 63,
        dot_index(s) < s.len(),
    ensures
        encode_labels(s) == match encode_labels(s.skip(dot_index(s) + 1)) {
            Some(rest) => Some(seq![dot_index(s) as u8] + s.take(dot_index(s)) + rest),
            None => None::<Seq<u8>>,
        },
{
}

/// Writes the labels of `name` (see [encode_labels]).
pub fn name_labels(name: &[u8]) -> (r: Option<Vec<u8>>)
    ensures
        match encode_labels(name@) {
            Some(labels) => r matches Some(v) && v@ == labels,
            None => r is None,
        },
{
    let mut acc: Vec<u8> = Vec::new();
    let mut pos: usize = 0;
    assert(name@.skip(0) =~= name@);
    loop
        invariant
            pos <= name@.len(),
            encode_labels(name@) == match encode_labels(name@.skip(pos as int)) {
                Some(rest) => Some(acc@ + rest),
                None => None::<Seq<u8>>,
            },
        decreases name@.len() - pos,
    {
        let j = find_dot(name, pos);
        let ghost s = name@.skip(pos as int);
        proof {
            lemma_dot_index(s);
        }
        if j - pos > 63 {
            return None;
        }
        let ghost before = acc@;
        acc.push((j - pos) as u8);
        extend_bytes(&mut acc, vstd::slice::slice_subrange(name, pos, j));
        assert(s.take(j - pos) =~= name@.subrange(pos as int, j as int));
        if j == name.len() {
            assert(s =~= s.take(j - pos));
            assert(acc@ =~= before + (seq![(j - pos) as u8] + s));
            return Some(acc);
        }
        proof {
            lemma_encode_labels_step(s);
            assert(s.skip(j - pos + 1) =~= name@.skip(j + 1));
            assert(acc@ =~= before + seq![(j - pos) as u8] + s.take(j - pos));
            match encode_labels(name@.skip(j + 1)) {
                Some(rest) => {
                    assert(before + (seq![(j - pos) as u8] + s.take(j - pos) + rest) =~= acc@
                        + rest);
                },
                None => {},
            }
        }
        pos = j + 1;
    }
}

fn pointer(target: u16) -> (r: Vec<u8>)
    ensures
        r@ == pointer_bytes(target),
{
    let mut v: Vec<u8> = Vec::new();
    push_be(&mut v, (0xC000u16 | target) as u128, 2);
    assert(v@ =~= pointer_bytes(target));
    v
}

fn is_subdomain(name: &[u8], reference: &[u8]) -> (r: bool)
    ensures
        r == is_subdomain_of(name@, reference@),
{
    if reference.len() == 0 || name.len() <= reference.len() {
        return false;
    }
    let start = name.len() - reference.len();
    if name[start - 1] != DOT {
        return false;
    }
    let tail = vstd::slice::slice_subrange(name, start, name.len());
    assert(tail@ =~= name@.skip(start as int));
    crate::bytes::bytes_equal(tail, reference)
}

fn uncompressed(name: &[u8]) -> (r: Result<NameAsBytes, GoatNsError>)
    ensures
        match uncompressed_form(name@) {
            Some(f) => r matches Ok(n) && n@ == f,
            None => r matches Err(e) && e is InvalidName,
        },
{
    match name_labels(name) {
        Some(labels) => {
            let mut v = labels;
            v.push(0);
            Ok(NameAsBytes::Uncompressed(v))
        },
        None => Err(GoatNsError::InvalidName),
    }
}

/// Turns a dotted name into wire bytes, compressing it against the name found at offset
/// `compress_target` where it can (see [name_form]).
pub fn name_as_bytes(
    name: &[u8],
    compress_target: Option<u16>,
    compress_reference: Option<&Vec<u8>>,
) -> (r: Result<NameAsBytes, GoatNsError>)
    ensures
        match name_form(name@, compress_target, opt_bytes(compress_reference)) {
            Some(f) => r matches Ok(n) && n@ == f,
            None => r matches Err(e) && e is InvalidName,
        },
{
    match compress_target {
        None => uncompressed(name),
        Some(t) => match compress_reference {
            None => Ok(NameAsBytes::Compressed(pointer(t))),
            Some(r) => {
                if r.len() > 0 && crate::bytes::bytes_equal(name, r.as_slice()) {
                    Ok(NameAsBytes::Compressed(pointer(t)))
                } else if is_subdomain(name, r.as_slice()) {
                    let cut = name.len() - r.len() - 1;
                    let head = vstd::slice::slice_subrange(name, 0, cut);
                    assert(head@ =~= name@.take(cut as int));
                    match name_labels(head) {
                        Some(prefix) => {
                            let mut v = prefix;
                            let mut p = pointer(t);
                            v.append(&mut p);
                            Ok(NameAsBytes::Compressed(v))
                        },
                        None => Err(GoatNsError::InvalidName),
                    }
                } else {
                    uncompressed(name)
                }
            },
        },
    }
}

/// The outcome of walking the labels of a query name.
pub enum QnameScan {
    /// The labels joined with dots
    Done(Seq<u8>),
    /// The input is malformed
    Fail,
}

/// Walks the labels of a query name from `buf`, appending them to `acc` joined by dots.
/// A zero length octet ends the name; a length over 63, a label running up to or past the
/// end of the input, or a name growing past 255 octets is malformed.
pub open spec fn qname_scan(buf: Seq<u8>, acc: Seq<u8>) -> QnameScan
    decreases buf.len(),
{
    if buf.len() == 0 || buf[0] == 0 {
        QnameScan::Done(acc)
    } else if buf[0] > 63 || buf.len() < buf[0] + 1 {
        QnameScan::Fail
    } else {
        let l = buf[0] as int;
        let label = buf.subrange(1, l + 1);
        let rest = buf.skip(l + 1);
        if rest.len() == 0 {
            QnameScan::Fail
        } else {
            let acc2 = if rest[0] != 0 {
                (acc + label).push(DOT)
            } else {
                acc + label
            };
            if acc2.len() > 255 {
                QnameScan::Fail
            } else {
                qname_scan(rest, acc2)
            }
        }
    }
}

/// The query name that a question section starts with: its labels joined by dots, as
/// UTF-8, lowercased. `None` for an empty or malformed input or one that is not UTF-8.
pub open spec fn question_qname(input: Seq<u8>) -> Option<Seq<u8>> {
    if input.len() == 0 {
        None
    } else {
        match qname_scan(input, Seq::empty()) {
            QnameScan::Done(raw) => if valid_utf8(raw) {
                Some(encode_utf8(lowered(decode_utf8(raw))))
            } else {
                None
            },
            _ => None,
        }
    }
}

/// Returns the name that a question section starts with, as bytes
/// (ie, example.com = [101, 120, 97, 109, 112, 108, 101, 46, 99, 111, 109]), lowercased.
pub fn get_question_qname(input_val: &[u8]) -> (r: Result<Vec<u8>, String>)
    ensures
        match question_qname(input_val@) {
            Some(q) => r matches Ok(v) && v@ == q,
            None => r is Err,
        },
{
    if input_val.len() == 0 {
        return Err(String::from_str("zero-length buffer? That's bad."));
    }
    let mut result: Vec<u8> = Vec::new();
    let mut pos: usize = 0;
    assert(input_val@.skip(0) =~= input_val@);
    while pos < input_val.len()
        invariant
            pos <= input_val@.len(),
            qname_scan(input_val@, Seq::empty()) == qname_scan(input_val@.skip(pos as int), result@),
        ensures
            qname_scan(input_val@, Seq::empty()) == QnameScan::Done(result@),
        decreases input_val@.len() - pos,
    {
        let ghost buf = input_val@.skip(pos as int);
        let label_len = input_val[pos] as usize;
        if label_len == 0 {
            break;
        } else if label_len > 63 {
            return Err(String::from_str("Label length is over 63"));
        }
        if input_val.len() - pos < label_len + 1 {
            return Err(String::from_str("Label length is longer than the remaining buffer"));
        }
        let ghost before = result@;
        extend_bytes(&mut result, vstd::slice::slice_subrange(input_val, pos + 1, pos + label_len + 1));
        assert(buf.subrange(1, label_len + 1) =~= input_val@.subrange(pos + 1, pos + label_len + 1));
        assert(buf.skip(label_len + 1) =~= input_val@.skip(pos + label_len + 1));
        pos = pos + label_len + 1;
        if pos == input_val.len() {
            return Err(String::from_str("Name ends without its zero length octet"));
        }
        if input_val[pos] != 0 {
            result.push(DOT);
        }
        if result.len() > 255 {
            return Err(String::from_str("qname length over 255 while parsing question"));
        }
    }
    let text = match str_from_utf8(result.as_slice()) {
        Ok(value) => value,
        Err(_) => return Err(String::from_str("query name is not valid UTF-8")),
    };
    proof {
        broadcast use vstd::utf8::encode_utf8_decode_utf8;

        assert(decode_utf8(encode_utf8(text@)) == text@);
    }
    let lower = str_to_lowercase(text);
    Ok(vstd::slice::slice_to_vec(lower.as_str().as_bytes()))
}

/// Reads a name back from wire bytes as a resolver does: length-prefixed labels joined
/// with dots, ending either at the root label or at a compression pointer, which must be
/// to offset `target` and stands for the name `reference` found there. `None` for bytes
/// that are not exactly one such name.
pub open spec fn read_name(b: Seq<u8>, target: u16, reference: Seq<u8>) -> Option<Seq<u8>>
    decreases b.len(),
{
    if b.len() == 0 {
        None
    } else if b[0] == 0 {
        if b.len() == 1 {
            Some(Seq::empty())
        } else {
            None
        }
    } else if b[0] >= 192 {
        if b.len() == 2 && (b[0] - 192) * 256 + b[1] == target {
            Some(reference)
        } else {
            None
        }
    } else if b[0] > 63 || b.len() < b[0] + 1 {
        None
    } else {
        let l = b[0] as int;
        match read_name(b.skip(l + 1), target, reference) {
            Some(rest) => if rest.len() == 0 {
                Some(b.subrange(1, l + 1))
            } else {
                Some(b.subrange(1, l + 1) + seq![DOT] + rest)
            },
            None => None,
        }
    }
}

proof fn lemma_read_pointer(target: u16, reference: Seq<u8>)
    requires
        target < 16384,
    ensures
        read_name(pointer_bytes(target), target, reference) == Some(reference),
{
    assert((0xC000u16 | target) == 0xC000u16 + target) by (bit_vector)
        requires
            target < 16384u16,
    ;
    let x = (0xC000u16 | target) as int;
    reveal_with_fuel(be_bytes, 3);
    let b = pointer_bytes(target);
    assert(b =~= seq![((x / 256) % 256) as u8, (x % 256) as u8]);
    assert(b[0] == 192 + target / 256);
    assert(b[1] == target % 256);
}

proof fn lemma_read_encoded(s: Seq<u8>, tail: Seq<u8>, target: u16, reference: Seq<u8>)
    requires
        labels_nonempty(s),
        encode_labels(s) is Some,
        read_name(tail, target, reference) is Some,
    ensures
        read_name(encode_labels(s)->0 + tail, target, reference) == Some(
            if read_name(tail, target, reference)->0.len() == 0 {
                s
            } else {
                s + seq![DOT] + read_name(tail, target, reference)->0
            },
        ),
    decreases s.len(),
{
    lemma_dot_index(s);
    let i = dot_index(s);
    let e = encode_labels(s)->0;
    let b = e + tail;
    let rest = read_name(tail, target, reference)->0;
    assert(i >= 1) by {
        if i == 0 {
            assert(s[0] == DOT);
        }
    }
    if i >= s.len() {
        assert(e =~= seq![i as u8] + s);
        assert(b[0] == i as u8);
        assert(b.subrange(1, i + 1) =~= s);
        assert(b.skip(i + 1) =~= tail);
    } else {
        let s2 = s.skip(i + 1);
        assert(i < s.len() - 1) by {
            if i == s.len() - 1 {
                assert(s.last() == DOT);
            }
        }
        assert(labels_nonempty(s2)) by {
            assert(s2[0] == s[i + 1]);
            assert(!(s[i] == DOT && s[i + 1] == DOT));
            assert(s2.last() == s.last());
            assert forall|k: int| 0 <= k < s2.len() - 1 implies !(#[trigger] s2[k] == DOT && s2[k + 1] == DOT) by {
                assert(s2[k] == s[k + i + 1]);
                assert(s2[k + 1] == s[k + i + 2]);
            }
        }
        lemma_read_encoded(s2, tail, target, reference);
        let e2 = encode_labels(s2)->0;
        assert(e =~= seq![i as u8] + s.take(i) + e2);
        assert(b[0] == i as u8);
        assert(b.subrange(1, i + 1) =~= s.take(i));
        assert(b.skip(i + 1) =~= e2 + tail);
        let got = read_name(e2 + tail, target, reference)->0;
        assert(got.len() > 0);
        assert(s =~= s.take(i) + seq![DOT] + s2) by {
            assert(s[i] == DOT);
        }
        if rest.len() == 0 {
            assert(s.take(i) + seq![DOT] + got =~= s);
        } else {
            assert(s.take(i) + seq![DOT] + got =~= s + seq![DOT] + rest);
        }
    }
}

/// Compression loses nothing: the bytes [name_as_bytes] writes for a name of non-empty
/// labels, read back as a resolver reads them with the pointer standing for the
/// reference name at its target, give the name again. So a pointer to the reference
/// appears only where the name is the reference or ends in it, and a name unrelated to
/// the reference is written out whole.
pub proof fn lemma_name_form_reads_back(name: Seq<u8>, target: u16, reference: Seq<u8>)
    requires
        labels_nonempty(name),
        target < 16384,
        name_form(name, Some(target), Some(reference)) is Some,
    ensures
        read_name(form_bytes(name_form(name, Some(target), Some(reference))->0), target, reference)
            == Some(name),
{
    let f = name_form(name, Some(target), Some(reference))->0;
    lemma_read_pointer(target, reference);
    assert(read_name(seq![0u8], target, reference) == Some(Seq::<u8>::empty()));
    if reference.len() > 0 && name == reference {
    } else if is_subdomain_of(name, reference) {
        let cut = name.len() - reference.len() - 1;
        let head = name.take(cut);
        assert(name[cut] == DOT);
        assert(cut > 0) by {
            if cut == 0 {
                assert(name[0] == DOT);
            }
        }
        assert(labels_nonempty(head)) by {
            assert(head[0] == name[0]);
            assert(head.last() == name[cut - 1]);
            assert(!(name[cut - 1] == DOT && name[cut] == DOT));
            assert forall|k: int| 0 <= k < head.len() - 1 implies !(#[trigger] head[k] == DOT && head[k + 1] == DOT) by {
                assert(head[k] == name[k]);
                assert(head[k + 1] == name[k + 1]);
            }
        }
        lemma_read_encoded(head, pointer_bytes(target), target, reference);
        assert(head + seq![DOT] + reference =~= name);
    } else {
        let e = encode_labels(name)->0;
        lemma_read_encoded(name, seq![0u8], target, reference);
        assert(e.push(0) =~= e + seq![0u8]);
    }
}

} // verus!
