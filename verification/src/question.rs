//! A DNS Question section, from Ref [RFC1035](https://www.rfc-editor.org/rfc/rfc1035#section-4.1.2) section 4.1.2 "Question section format".

use crate::bytes::{be_bytes, push_be};
use crate::config::{decimal_string, decimal_text};
use crate::enums::{rc_code, rc_from_code, rc_name, rt_code, rt_from_code, rt_name, RecordClass, RecordType};
use crate::text::join_with;
use crate::error::GoatNsError;
use crate::external::{lowered, str_from_utf8, str_to_lowercase};
use crate::names::{
    dot_index, encode_labels, form_bytes, get_question_qname, lemma_dot_index, name_as_bytes,
    qname_scan, question_qname, uncompressed_form, QnameScan, DOT,
};
use vstd::prelude::*;
use vstd::string::StringSliceAdditionalSpecFns;
use vstd::utf8::{decode_utf8, encode_utf8, valid_utf8};

verus! {

/// A DNS question: a name, the record type requested and the class.
#[derive(Clone, Debug, PartialEq, Eq)]
pub struct Question {
    /// The name which is being queried
    pub qname: Vec<u8>,
    /// The Record type that is being requested, eg A, NS, MX, TXT etc.
    pub qtype: RecordType,
    /// The class, (typically IN for "Internet")
    pub qclass: RecordClass,
}

/// Two bytes read as a big-endian 16-bit number.
pub open spec fn be16_at(b: Seq<u8>, i: int) -> u16 {
    (b[i] * 256 + b[i + 1]) as u16
}

/// The question that a question section holds: the query name (see [question_qname]),
/// then the type and the class codes right after the name. `None` if the name does not
/// parse or the section ends before both codes.
pub open spec fn question_from_bytes(buf: Seq<u8>) -> Option<(Seq<u8>, RecordType, RecordClass)> {
    match question_qname(buf) {
        None => None,
        Some(q) => {
            let rp = q.len() as int + 2;
            if buf.len() <= rp + 3 {
                None
            } else {
                Some((q, rt_from_code(be16_at(buf, rp)), rc_from_code(be16_at(buf, rp + 2))))
            }
        },
    }
}

/// The bytes of a question: the name written out in full, then type and class codes.
pub open spec fn question_bytes(qname: Seq<u8>, qtype: RecordType, qclass: RecordClass) -> Option<
    Seq<u8>,
> {
    match uncompressed_form(qname) {
        Some(f) => Some(form_bytes(f) + be_bytes(rt_code(qtype) as int, 2) + be_bytes(
            rc_code(qclass) as int,
            2,
        )),
        None => None,
    }
}

/// Two questions asking the same thing.
pub open spec fn same_question(a: Question, b: Question) -> bool {
    a.qname@ == b.qname@ && a.qtype == b.qtype && a.qclass == b.qclass
}

impl Question {
    /// A copy of the question.
    pub fn clone_question(&self) -> (r: Question)
        ensures
            same_question(r, *self),
    {
        let qname = self.qname.clone();
        assert(qname@ =~= self.qname@);
        Question { qname, qtype: self.qtype, qclass: self.qclass }
    }

    /// The query name as text, lowercased; an error if it is not UTF-8.
    pub fn normalized_name(&self) -> (r: Result<String, String>)
        ensures
            valid_utf8(self.qname@) <==> r is Ok,
            r matches Ok(s) ==> s@ == lowered(decode_utf8(self.qname@)),
    {
        match str_from_utf8(self.qname.as_slice()) {
            Ok(value) => {
                proof {
                    broadcast use vstd::utf8::encode_utf8_decode_utf8;

                    assert(decode_utf8(vstd::utf8::encode_utf8(value@)) == value@);
                }
                Ok(str_to_lowercase(value))
            },
            Err(_) => Err(String::from_str("Failed to normalize the query name")),
        }
    }

    /// Hand it the question section and get back a [Question]
    pub fn from_packets(buf: &[u8]) -> (r: Result<Question, String>)
        ensures
            match question_from_bytes(buf@) {
                Some((q, t, c)) => r matches Ok(x) && x.qname@ == q && x.qtype == t && x.qclass
                    == c,
                None => r is Err,
            },
    {
        let qname = get_question_qname(buf)?;
        // skip past the end of the question
        if buf.len() < 6 || qname.len() > buf.len() - 6 {
            return Err(String::from_str("Packet not long enough to hold the QTYPE and QCLASS"));
        }
        let read_pointer = qname.len() + 2;
        let qtype = RecordType::from_code(
            (buf[read_pointer] as u16) * 256 + buf[read_pointer + 1] as u16,
        );
        let qclass = RecordClass::from_code(
            (buf[read_pointer + 2] as u16) * 256 + buf[read_pointer + 3] as u16,
        );
        Ok(Question { qname, qtype, qclass })
    }

    /// Turn a question into the bytes to send back to the user
    pub fn try_to_bytes(&self) -> (r: Result<Vec<u8>, GoatNsError>)
        ensures
            match question_bytes(self.qname@, self.qtype, self.qclass) {
                Some(b) => r matches Ok(v) && v@ == b,
                None => r matches Err(e) && e is InvalidName,
            },
    {
        let name = name_as_bytes(self.qname.as_slice(), None, None)?;
        let mut retval = name.into_bytes();
        push_be(&mut retval, self.qtype.code() as u128, 2);
        push_be(&mut retval, self.qclass.code() as u128, 2);
        Ok(retval)
    }
}


/// Whether a name is made of non-empty labels: it is not empty, does not start or end
/// with a dot, and has no two dots in a row.
pub open spec fn labels_nonempty(s: Seq<u8>) -> bool {
    &&& s.len() > 0
    &&& s[0] != DOT
    &&& s.last() != DOT
    &&& forall|k: int| 0 <= k < s.len() - 1 ==> !(#[trigger] s[k] == DOT && s[k + 1] == DOT)
}

proof fn lemma_scan_encoded(s: Seq<u8>, acc: Seq<u8>, tail: Seq<u8>)
    requires
        labels_nonempty(s),
        encode_labels(s) is Some,
        acc.len() + s.len() <= 255,
    ensures
        encode_labels(s)->0.len() == s.len() + 1,
        qname_scan(encode_labels(s)->0 + seq![0u8] + tail, acc) == QnameScan::Done(acc + s),
    decreases s.len(),
{
    lemma_dot_index(s);
    let i = dot_index(s);
    let e = encode_labels(s)->0;
    let buf = e + seq![0u8] + tail;
    assert(i >= 1) by {
        if i == 0 {
            assert(s[0] == DOT);
        }
    }
    if i >= s.len() {
        assert(e =~= seq![i as u8] + s);
        assert(buf[0] == i as u8);
        assert(buf.subrange(1, i + 1) =~= s);
        let rest = buf.skip(i + 1);
        assert(rest =~= seq![0u8] + tail);
        assert(rest[0] == 0);
        assert(qname_scan(rest, acc + s) == QnameScan::Done(acc + s));
    } else {
        let s2 = s.skip(i + 1);
        assert(i < s.len() - 1) by {
            if i == s.len() - 1 {
                assert(s.last() == DOT);
            }
        }
        assert(labels_nonempty(s2)) by {
            assert(s2[0] == s[i + 1]);
            assert(!(s[i] == DOT && s[i + 1] == DOT));
            assert(s2.last() == s.last());
            assert forall|k: int| 0 <= k < s2.len() - 1 implies !(#[trigger] s2[k] == DOT && s2[k + 1] == DOT) by {
                assert(s2[k] == s[k + i + 1]);
                assert(s2[k + 1] == s[k + i + 2]);
            }
        }
        let acc2 = (acc + s.take(i)).push(DOT);
        lemma_scan_encoded(s2, acc2, tail);
        let e2 = encode_labels(s2)->0;
        assert(e =~= seq![i as u8] + s.take(i) + e2);
        assert(buf[0] == i as u8);
        assert(buf.subrange(1, i + 1) =~= s.take(i));
        let rest = buf.skip(i + 1);
        assert(rest =~= e2 + seq![0u8] + tail);
        lemma_dot_index(s2);
        assert(dot_index(s2) >= 1) by {
            if dot_index(s2) == 0 {
                assert(s2[0] == DOT);
            }
        }
        assert(e2[0] == dot_index(s2) as u8);
        assert(rest[0] != 0);
        assert(acc2 + s2 =~= acc + s);
    }
}

/// A question the server writes reads back as the same question with its name
/// lowercased: for a name of non-empty labels, at most 255 bytes, in UTF-8, whose
/// lowercase form is as long as itself.
pub proof fn lemma_question_round_trip(qname: Seq<u8>, qtype: RecordType, qclass: RecordClass)
    requires
        labels_nonempty(qname),
        qname.len() <= 255,
        question_bytes(qname, qtype, qclass) is Some,
        valid_utf8(qname),
        encode_utf8(lowered(decode_utf8(qname))).len() == qname.len(),
    ensures
        question_from_bytes(question_bytes(qname, qtype, qclass)->0) == Some(
            (encode_utf8(lowered(decode_utf8(qname))), qtype, qclass),
        ),
{
    let e = encode_labels(qname)->0;
    let tb = be_bytes(rt_code(qtype) as int, 2);
    let cb = be_bytes(rc_code(qclass) as int, 2);
    let buf = question_bytes(qname, qtype, qclass)->0;
    assert(buf =~= e + seq![0u8] + (tb + cb));
    lemma_scan_encoded(qname, Seq::empty(), tb + cb);
    assert(Seq::<u8>::empty() + qname =~= qname);
    let q = encode_utf8(lowered(decode_utf8(qname)));
    assert(question_qname(buf) == Some(q));
    let rp = q.len() as int + 2;
    reveal_with_fuel(be_bytes, 3);
    assert(tb =~= seq![((rt_code(qtype) as int / 256) % 256) as u8, (rt_code(qtype) as int % 256) as u8]);
    assert(cb =~= seq![((rc_code(qclass) as int / 256) % 256) as u8, (rc_code(qclass) as int % 256) as u8]);
    assert(buf[rp] == tb[0] && buf[rp + 1] == tb[1]);
    assert(buf[rp + 2] == cb[0] && buf[rp + 3] == cb[1]);
    assert(be16_at(buf, rp) == rt_code(qtype));
    assert(be16_at(buf, rp + 2) == rc_code(qclass));
    assert(rt_from_code(rt_code(qtype)) == qtype);
    assert(rc_from_code(rc_code(qclass)) == qclass);
}


/// Writing a name of non-empty labels as labels takes one byte more than the name.
pub proof fn lemma_encoded_len(s: Seq<u8>)
    requires
        labels_nonempty(s),
        encode_labels(s) is Some,
    ensures
        encode_labels(s)->0.len() == s.len() + 1,
{
    if s.len() <= 255 {
        lemma_scan_encoded(s, Seq::empty(), Seq::empty());
    } else {
        lemma_encoded_len_any(s);
    }
}

proof fn lemma_encoded_len_any(s: Seq<u8>)
    requires
        encode_labels(s) is Some,
    ensures
        encode_labels(s)->0.len() == s.len() + 1,
    decreases s.len(),
{
    lemma_dot_index(s);
    let i = dot_index(s);
    if i < s.len() {
        lemma_encoded_len_any(s.skip(i + 1));
    }
}


/// How a record type is shown in a question's description: its mnemonic, and
/// `InvalidType` for the invalid type.
pub open spec fn rt_shown(t: RecordType) -> Seq<char> {
    if t == RecordType::InvalidType {
        "InvalidType"@
    } else {
        rt_name(t)
    }
}

/// The bytes of a name that is not UTF-8 as a list of numbers, `[1, 2, 3]`.
pub open spec fn byte_list_text(b: Seq<u8>) -> Seq<char> {
    "["@ + join_with(b.map_values(|x: u8| decimal_text(x as nat)), ", "@) + "]"@
}

/// A question as text: `QNAME=name QTYPE=type QCLASS=class`, the name as text when it is
/// UTF-8 and as a list of its bytes otherwise.
pub open spec fn question_text(qname: Seq<u8>, qtype: RecordType, qclass: RecordClass) -> Seq<char> {
    let name = if valid_utf8(qname) {
        decode_utf8(qname)
    } else {
        byte_list_text(qname)
    };
    "QNAME="@ + name + " QTYPE="@ + rt_shown(qtype) + " QCLASS="@ + rc_name(qclass)
}

fn byte_list(b: &[u8]) -> (r: String)
    ensures
        r@ == byte_list_text(b@),
{
    let mut s = String::from_str("[");
    let ghost texts = b@.map_values(|x: u8| decimal_text(x as nat));
    let mut i: usize = 0;
    while i < b.len()
        invariant
            0 <= i <= b@.len(),
            texts == b@.map_values(|x: u8| decimal_text(x as nat)),
            s@ == "["@ + join_with(texts.take(i as int), ", "@),
        decreases b@.len() - i,
    {
        let ghost done = texts.take(i as int);
        let ghost next = texts.take(i + 1);
        assert(next.drop_last() =~= done);
        assert(next.last() == decimal_text(b@[i as int] as nat));
        if i > 0 {
            s.append(", ");
        } else {
            assert(next =~= seq![decimal_text(b@[0] as nat)]);
        }
        let d = decimal_string(b[i] as u64);
        s.append(d.as_str());
        proof {
            assert(s@ =~= "["@ + join_with(next, ", "@));
        }
        i = i + 1;
    }
    assert(texts.take(b@.len() as int) =~= texts);
    s.append("]");
    s
}

impl Question {
    /// The question as text, see [question_text].
    pub fn to_string(&self) -> (r: String)
        ensures
            r@ == question_text(self.qname@, self.qtype, self.qclass),
    {
        let mut s = String::from_str("QNAME=");
        match str_from_utf8(self.qname.as_slice()) {
            Ok(text) => {
                proof {
                    broadcast use vstd::utf8::encode_utf8_decode_utf8;

                    assert(decode_utf8(encode_utf8(text@)) == text@);
                }
                s.append(text);
            },
            Err(_) => {
                let list = byte_list(self.qname.as_slice());
                s.append(list.as_str());
            },
        }
        s.append(" QTYPE=");
        let t = match self.qtype {
            RecordType::InvalidType => "InvalidType",
            other => other.as_str(),
        };
        s.append(t);
        s.append(" QCLASS=");
        s.append(self.qclass.as_str());
        s
    }
}

} // verus!
