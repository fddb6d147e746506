//! The line codec: splits the control-connection byte stream into
//! CRLF-terminated frames, parses each frame into a [`Command`], and
//! serializes an [`Answer`] into its wire form.

use vstd::prelude::*;

use crate::cmd::{copy_range, spec_parse_command, Command, ParseResult};
use crate::digits::{all_digit_bytes, dec_bytes, dec_val, is_digit_byte, lemma_dec_bytes_val, push_dec_bytes};
use crate::error::Error;
use crate::ftp::{Answer, AnswerV};
use vstd::utf8::{
    char_is_scalar, char_u32_cast, encode_scalar, encode_utf8, has_width_1_encoding,
    has_width_2_encoding, has_width_3_encoding,
};

verus! {

/// Decoder/encoder for raw bytes on the data connection.
pub struct BytesCodec;

/// Decoder/encoder for command lines and replies on the control connection.
pub struct FtpCodec;

/// The index of the first CRLF pair in `s`, or `s.len()` if there is none.
pub open spec fn crlf_index(s: Seq<u8>) -> int
    decreases s.len(),
{
    if s.len() == 0 {
        0
    } else if s[0] == 13 && s.len() >= 2 && s[1] == 10 {
        0
    } else {
        1 + crlf_index(s.drop_first())
    }
}

/// `crlf_index` is in range, points at a CRLF pair when one exists, and no
/// pair starts before it.
pub proof fn lemma_crlf_index(s: Seq<u8>)
    ensures
        0 <= crlf_index(s) <= s.len(),
        crlf_index(s) < s.len() ==> crlf_index(s) + 1 < s.len() && s[crlf_index(s)] == 13
            && s[crlf_index(s) + 1] == 10,
        forall|i: int|
            0 <= i < crlf_index(s) && i + 1 < s.len() ==> !(#[trigger] s[i] == 13 && s[i + 1]
                == 10),
    decreases s.len(),
{
    if s.len() == 0 {
    } else if s[0] == 13 && s.len() >= 2 && s[1] == 10 {
    } else {
        lemma_crlf_index(s.drop_first());
        let k = crlf_index(s.drop_first());
        if k < s.drop_first().len() {
            assert(s[1 + k] == s.drop_first()[k]);
            assert(s[1 + k + 1] == s.drop_first()[k + 1]);
        }
        assert forall|i: int|
            0 <= i < crlf_index(s) && i + 1 < s.len() implies !(#[trigger] s[i] == 13 && s[i + 1]
            == 10) by {
            if i >= 1 {
                assert(s.drop_first()[i - 1] == s[i]);
                assert(s.drop_first()[i] == s[i + 1]);
            }
        }
    }
}

/// Find the first CRLF pair in `buf`.
pub fn find_crlf(buf: &Vec<u8>) -> (r: Option<usize>)
    ensures
        (match r {
            Some(i) => i == crlf_index(buf@) && i + 1 < buf@.len(),
            None => crlf_index(buf@) == buf@.len(),
        }),
{
    proof {
        lemma_crlf_index(buf@);
    }
    let n = buf.len();
    if n < 2 {
        return None;
    }
    let mut i: usize = 0;
    while i + 1 < n
        invariant
            n == buf@.len(),
            i + 1 <= n,
            forall|j: int|
                0 <= j < i && j + 1 < n ==> !(#[trigger] buf@[j] == 13 && buf@[j + 1] == 10),
        decreases n - i,
    {
        if buf[i] == 13 && buf[i + 1] == 10 {
            proof {
                lemma_crlf_index(buf@);
            }
            return Some(i);
        }
        i += 1;
    }
    proof {
        lemma_crlf_index(buf@);
    }
    None
}

/// One leading space is dropped from a command line, if present.
pub open spec fn trim_one_space(line: Seq<u8>) -> Seq<u8> {
    if line.len() > 0 && line[0] == 32 {
        line.drop_first()
    } else {
        line
    }
}

/// The wire form of a reply: the code digits, then a space and the message
/// unless the message is empty, then CRLF.
pub open spec fn spec_encode_answer(a: AnswerV) -> Seq<u8> {
    dec_bytes(a.code.spec_to_u32() as nat) + (if a.message.len() == 0 {
        Seq::<u8>::empty()
    } else {
        seq![32u8] + encode_utf8(a.message)
    }) + seq![13u8, 10u8]
}

impl FtpCodec {
    /// Decode the next command frame from `buf`.
    ///
    /// Without a complete CRLF-terminated frame, nothing is consumed and
    /// `Ok(None)` asks for more data. Otherwise the frame is consumed, one
    /// leading space is trimmed, and the line is parsed as a command.
    pub fn decode(&mut self, buf: &mut Vec<u8>) -> (r: Result<Option<Command>, Error>)
        ensures
            crlf_index(old(buf)@) == old(buf)@.len() ==> (r matches Ok(None)) && final(buf)@
                == old(buf)@,
            crlf_index(old(buf)@) < old(buf)@.len() ==> {
                let line = trim_one_space(old(buf)@.subrange(0, crlf_index(old(buf)@)));
                &&& final(buf)@ == old(buf)@.subrange(
                    crlf_index(old(buf)@) + 2,
                    old(buf)@.len() as int,
                )
                &&& (match r {
                    Ok(Some(c)) => spec_parse_command(line) == ParseResult::Cmd(c@),
                    Ok(None) => false,
                    Err(e) => spec_parse_command(line) == ParseResult::Fail(e@),
                })
            },
    {
        proof {
            lemma_crlf_index(buf@);
        }
        match find_crlf(buf) {
            None => Ok(None),
            Some(i) => {
                let mut line = copy_range(buf, 0, i);
                let n2 = buf.len();
                assert(i + 2 <= n2);
                let rest = buf.split_off(i + 2);
                *buf = rest;
                if line.len() > 0 && line[0] == 32 {
                    line.remove(0);
                    assert(line@ =~= trim_one_space(old(buf)@.subrange(0, i as int)));
                } else {
                    assert(line@ =~= trim_one_space(old(buf)@.subrange(0, i as int)));
                }
                match Command::new(line) {
                    Ok(c) => Ok(Some(c)),
                    Err(e) => Err(e),
                }
            },
        }
    }

    /// Append the wire form of `answer` to `buf`.
    pub fn encode(&mut self, answer: Answer, buf: &mut Vec<u8>) -> (r: Result<(), Error>)
        ensures
            r is Ok,
            final(buf)@ == old(buf)@ + spec_encode_answer(answer@),
    {
        push_dec_bytes(buf, answer.code.to_u32() as u64);
        if !answer.message.as_str().is_empty() {
            buf.push(32);
            let bs = answer.message.as_str().as_bytes();
            buf.extend_from_slice(bs);
        } else {
            assert(encode_utf8(answer.message@) =~= Seq::<u8>::empty());
        }
        buf.push(13);
        buf.push(10);
        assert(final(buf)@ =~= old(buf)@ + spec_encode_answer(answer@));
        Ok(())
    }
}

impl BytesCodec {
    /// Take every buffered byte as one chunk, or ask for more data.
    pub fn decode(&mut self, buf: &mut Vec<u8>) -> (r: Result<Option<Vec<u8>>, Error>)
        ensures
            old(buf)@.len() == 0 ==> (r matches Ok(None)) && final(buf)@ == old(buf)@,
            old(buf)@.len() > 0 ==> (r matches Ok(Some(d)) && d@ == old(buf)@) && final(buf)@.len()
                == 0,
    {
        if buf.len() == 0 {
            return Ok(None);
        }
        let data = buf.split_off(0);
        Ok(Some(data))
    }

    /// Append one chunk of raw data to the outgoing buffer.
    pub fn encode(&mut self, data: Vec<u8>, buf: &mut Vec<u8>) -> (r: Result<(), Error>)
        ensures
            r is Ok,
            final(buf)@ == old(buf)@ + data@,
    {
        let mut d = data;
        buf.append(&mut d);
        Ok(())
    }
}

/// The length of the leading run of decimal digits in `s`.
pub open spec fn digit_run(s: Seq<u8>) -> int
    decreases s.len(),
{
    if s.len() == 0 {
        0
    } else if !is_digit_byte(s[0]) {
        0
    } else {
        1 + digit_run(s.drop_first())
    }
}

/// `digit_run` is in range, everything before it is a digit, and what it
/// points at (if anything) is not.
pub proof fn lemma_digit_run(s: Seq<u8>)
    ensures
        0 <= digit_run(s) <= s.len(),
        forall|i: int| 0 <= i < digit_run(s) ==> is_digit_byte(#[trigger] s[i]),
        digit_run(s) < s.len() ==> !is_digit_byte(s[digit_run(s)]),
    decreases s.len(),
{
    if s.len() == 0 {
    } else if !is_digit_byte(s[0]) {
    } else {
        lemma_digit_run(s.drop_first());
        let k = digit_run(s.drop_first());
        if k < s.drop_first().len() {
            assert(s[1 + k] == s.drop_first()[k]);
        }
        assert forall|i: int| 0 <= i < digit_run(s) implies is_digit_byte(#[trigger] s[i]) by {
            if i >= 1 {
                assert(s.drop_first()[i - 1] == s[i]);
            }
        }
    }
}

/// The parse of a reply frame: a run of code digits, then optionally a
/// space and the message, up to the first CRLF. `None` without a complete
/// frame or when the line does not have that shape.
pub open spec fn spec_decode_answer(s: Seq<u8>) -> Option<(nat, Seq<u8>)> {
    let ci = crlf_index(s);
    if ci >= s.len() {
        None
    } else {
        let line = s.subrange(0, ci);
        let k = digit_run(line);
        if k < 1 {
            None
        } else if k == line.len() {
            Some((dec_val(line), Seq::<u8>::empty()))
        } else if line[k] == 32 {
            Some((dec_val(line.subrange(0, k)), line.subrange(k + 1, line.len() as int)))
        } else {
            None
        }
    }
}

/// No byte of the UTF-8 encoding of a CR-free, LF-free character is a CR or
/// LF byte.
proof fn lemma_encode_scalar_no_crlf(c: char)
    requires
        c != '\r',
        c != '\n',
    ensures
        forall|j: int|
            0 <= j < encode_scalar(c as u32).len() ==> #[trigger] encode_scalar(c as u32)[j] != 13
                && encode_scalar(c as u32)[j] != 10,
{
    char_is_scalar(c);
    let s = c as u32;
    if has_width_1_encoding(s) {
        assert(s & 0x7F == s) by (bit_vector)
            requires
                s <= 0x7F,
        ;
        if s == 13 {
            char_u32_cast(c, s);
            char_u32_cast('\r', '\r' as u32);
            assert(false);
        }
        if s == 10 {
            char_u32_cast(c, s);
            char_u32_cast('\n', '\n' as u32);
            assert(false);
        }
    } else if has_width_2_encoding(s) {
        let y1 = ((s >> 6) & 0x1F) as u8;
        let y2 = (s & 0x3F) as u8;
        assert((0xC0u8 | y1) >= 0x80 && (0x80u8 | y2) >= 0x80) by (bit_vector);
    } else if has_width_3_encoding(s) {
        let y1 = ((s >> 12) & 0x0F) as u8;
        let y2 = ((s >> 6) & 0x3F) as u8;
        let y3 = (s & 0x3F) as u8;
        assert((0xE0u8 | y1) >= 0x80 && (0x80u8 | y2) >= 0x80 && (0x80u8 | y3) >= 0x80)
            by (bit_vector);
    } else {
        let y1 = ((s >> 18) & 0x7) as u8;
        let y2 = ((s >> 12) & 0x3F) as u8;
        let y3 = ((s >> 6) & 0x3F) as u8;
        let y4 = (s & 0x3F) as u8;
        assert((0xF0u8 | y1) >= 0x80 && (0x80u8 | y2) >= 0x80 && (0x80u8 | y3) >= 0x80 && (0x80u8
            | y4) >= 0x80) by (bit_vector);
    }
}

/// No byte of the UTF-8 encoding of a CR-free, LF-free text is a CR or LF
/// byte.
proof fn lemma_encode_utf8_no_crlf(chars: Seq<char>)
    requires
        forall|i: int| 0 <= i < chars.len() ==> chars[i] != '\r' && chars[i] != '\n',
    ensures
        forall|j: int|
            0 <= j < encode_utf8(chars).len() ==> #[trigger] encode_utf8(chars)[j] != 13
                && encode_utf8(chars)[j] != 10,
    decreases chars.len(),
{
    if chars.len() == 0 {
    } else {
        let first = encode_scalar(chars[0] as u32);
        let rest = chars.drop_first();
        assert(forall|i: int| 0 <= i < rest.len() ==> rest[i] == chars[i + 1]);
        lemma_encode_utf8_no_crlf(rest);
        lemma_encode_scalar_no_crlf(chars[0]);
        assert forall|j: int|
            0 <= j < encode_utf8(chars).len() implies encode_utf8(chars)[j] != 13 && encode_utf8(
            chars,
        )[j] != 10 by {
            if j < first.len() {
                assert(encode_utf8(chars)[j] == first[j]);
            } else {
                assert(encode_utf8(chars)[j] == encode_utf8(rest)[j - first.len()]);
            }
        }
    }
}

/// Codec round trip: decoding the wire form of any reply whose message
/// holds no CR or LF recovers the same code and a message whose bytes
/// decode back to exactly the message text that was encoded.
pub proof fn lemma_answer_round_trip(a: AnswerV)
    requires
        forall|i: int| 0 <= i < a.message.len() ==> a.message[i] != '\r' && a.message[i] != '\n',
    ensures
        spec_decode_answer(spec_encode_answer(a)) == Some(
            (a.code.spec_to_u32() as nat, encode_utf8(a.message)),
        ),
        vstd::utf8::decode_utf8(encode_utf8(a.message)) == a.message,
{
    vstd::utf8::encode_utf8_decode_utf8(a.message);
    let code = a.code.spec_to_u32() as nat;
    let code_b = dec_bytes(code);
    let msg_b = encode_utf8(a.message);
    let mid = if a.message.len() == 0 {
        Seq::<u8>::empty()
    } else {
        seq![32u8] + msg_b
    };
    let t = code_b + mid;
    let s = spec_encode_answer(a);
    assert(s =~= t + seq![13u8, 10u8]);
    lemma_dec_bytes_val(code);
    lemma_encode_utf8_no_crlf(a.message);
    if a.message.len() == 0 {
        assert(msg_b =~= Seq::<u8>::empty());
    }
    // No byte of `t` is a CR, so the first CRLF pair starts right after it.
    assert forall|i: int| 0 <= i < t.len() implies t[i] != 13 by {
        if i < code_b.len() {
            assert(is_digit_byte(code_b[i]));
        } else if i == code_b.len() {
            assert(a.message.len() != 0);
            assert(t[i] == 32);
        } else {
            assert(t[i] == msg_b[i - code_b.len() - 1]);
        }
    }
    lemma_crlf_index(s);
    let ci = crlf_index(s);
    let tl: int = t.len() as int;
    assert(s[tl] == 13 && s[tl + 1] == 10);
    assert(ci <= tl);
    if ci < t.len() {
        assert(s[ci] == t[ci]);
        assert(false);
    }
    assert(ci == t.len());
    let line = s.subrange(0, ci);
    assert(line =~= t);
    lemma_digit_run(line);
    let k = digit_run(line);
    // The digit run is exactly the code digits: everything before the run
    // is a digit, and either the line ends there or a space follows.
    if k < code_b.len() {
        assert(is_digit_byte(code_b[k]));
        assert(line[k] == code_b[k]);
        assert(false);
    }
    if a.message.len() == 0 {
        assert(line =~= code_b);
        if k < line.len() {
            assert(is_digit_byte(code_b[k]));
            assert(false);
        }
        assert(k == line.len());
        assert(dec_val(line) == code);
        assert(spec_decode_answer(s) == Some((code, Seq::<u8>::empty())));
        assert(msg_b =~= Seq::<u8>::empty());
    } else {
        let cl: int = code_b.len() as int;
        assert(t[cl] == mid[0]);
        assert(mid[0] == 32);
        assert(line[cl] == 32);
        if k > cl {
            assert(is_digit_byte(line[cl]));
            assert(false);
        }
        assert(k == cl);
        assert(k >= 1);
        assert(k < line.len());
        assert(line.subrange(0, k) =~= code_b);
        assert(line.subrange(k + 1, line.len() as int) =~= msg_b);
    }
}

/// The value of the whole digit run is at least the value of any prefix of
/// it, so a prefix past `u32::MAX` means the run itself is past it.
proof fn lemma_digit_run_lower_bound(line: Seq<u8>, j: int)
    requires
        0 <= j <= digit_run(line),
    ensures
        dec_val(line.subrange(0, digit_run(line))) >= dec_val(line.subrange(0, j)),
{
    lemma_digit_run(line);
    let run = digit_run(line);
    let t = line.subrange(0, run);
    assert(all_digit_bytes(t));
    crate::cmd::lemma_dec_val_prefix(t, j);
    assert(t.subrange(0, j) =~= line.subrange(0, j));
}

/// Decode a reply frame: the numeric code and the raw message bytes.
#[verifier::loop_isolation(false)]
pub fn decode_answer(buf: &Vec<u8>) -> (r: Option<(u32, Vec<u8>)>)
    ensures
        (match spec_decode_answer(buf@) {
            None => r is None,
            Some((n, m)) => if n <= u32::MAX {
                r matches Some(p) && p.0 == n && p.1@ == m
            } else {
                r is None
            },
        }),
{
    proof {
        lemma_crlf_index(buf@);
    }
    let ci = match find_crlf(buf) {
        None => {
            return None;
        },
        Some(i) => i,
    };
    let line = copy_range(buf, 0, ci);
    proof {
        lemma_digit_run(line@);
    }
    let ghost run: int = digit_run(line@);
    let ghost code_val: nat = (if run == line@.len() {
        dec_val(line@)
    } else {
        dec_val(line@.subrange(0, run))
    });
    proof {
        if run == line@.len() {
            assert(line@.subrange(0, run) =~= line@);
        }
        assert(code_val == dec_val(line@.subrange(0, run)));
    }
    let n = line.len();
    let mut k: usize = 0;
    let mut acc: u64 = 0;
    while k < n && 48 <= line[k] && line[k] <= 57
        invariant
            k <= n,
            forall|j: int| 0 <= j < k ==> is_digit_byte(#[trigger] line@[j]),
            acc == dec_val(line@.subrange(0, k as int)),
            acc <= u32::MAX,
        decreases n - k,
    {
        let b = line[k];
        proof {
            // `line[k]` is a digit, so the digit run reaches past `k`.
            if run <= k {
                assert(is_digit_byte(line@[run]));
            }
            let p = line@.subrange(0, k + 1);
            assert(p.drop_last() =~= line@.subrange(0, k as int));
            assert(dec_val(p) == acc * 10 + (b - 48));
        }
        acc = acc * 10 + (b - 48) as u64;
        k += 1;
        if acc > 0xFFFF_FFFF {
            // The code is past `u32::MAX`; such a line never comes from the
            // encoder, whose codes are small.
            proof {
                lemma_digit_run_lower_bound(line@, k as int);
            }
            return None;
        }
    }
    proof {
        if run < k {
            assert(is_digit_byte(line@[run]));
        }
        if run > k {
            assert(is_digit_byte(line@[k as int]));
        }
        assert(k == run);
    }
    if k == 0 {
        return None;
    }
    if k == n {
        proof {
            assert(line@.subrange(0, n as int) =~= line@);
        }
        return Some((acc as u32, Vec::new()));
    }
    if line[k] == 32 {
        let msg = copy_range(&line, k + 1, n);
        Some((acc as u32, msg))
    } else {
        None
    }
}

} // verus!
