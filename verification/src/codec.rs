//! A binary codec for the crate's wire types, over their stable
//! field-number layout.
//!
//! The format follows the protocol-buffer wire conventions. A message is its
//! fields in ascending field number, each introduced by a one-byte tag
//! `field_number * 8 + wire_type`, with wire type 0 for unsigned
//! base-128 varints and wire type 2 for length-delimited payloads (a varint
//! byte count, then the bytes). Strings travel as their UTF-8 bytes; nested
//! messages and repeated message fields as length-delimited blocks. Every
//! field is always present, so each message has exactly one encoding, and
//! the decoders accept exactly that shape.
//!
//! Field numbers: `UserError` has `code` = 1 (varint) and `msg` = 2;
//! `CreateWorkspaceParams` has `name` = 1, `desc` = 2, `user_id` = 3;
//! `App` has `id` = 1, `name` = 2, `desc` = 3; `Workspace` has `id` = 1,
//! `name` = 2, `desc` = 3, `apps` = 4; `RepeatedWorkspace` has `items` = 1,
//! repeated. These numbers are part of the compatibility contract.
//!
//! Each encoder's result is pinned to a spec-level encoding function, each
//! decoder's result to a spec-level decoding function, and the two are
//! proved inverse: decoding an encoding yields the value that went in.

use vstd::prelude::*;
use vstd::slice::{slice_subrange, slice_to_vec};
use vstd::utf8::{
    decode_utf8, encode_utf8, encode_utf8_decode_utf8, encode_utf8_valid_utf8, valid_utf8,
};

use crate::errors::{
    code_value, lemma_code_value_round_trip, spec_code_from_value, ErrorCode, UserError,
    UserErrorView,
};
use crate::workspace::{
    App, AppView, CreateWorkspaceParams, RepeatedApp, RepeatedWorkspace, Workspace,
    WorkspaceFieldsView, WorkspaceView,
};

verus! {

/// The base-128 little-endian encoding of `n`: seven payload bits per byte,
/// the high bit marking a continuation.
pub open spec fn varint(n: u64) -> Seq<u8>
    decreases n,
{
    if n < 128 {
        seq![n as u8]
    } else {
        seq![(128 + (n % 128)) as u8] + varint((n / 128) as u64)
    }
}

/// Decodes a varint at position `pos`; on success yields the value and the
/// position just past it. Values beyond `u64::MAX` are rejected.
pub open spec fn dec_varint(bytes: Seq<u8>, pos: int) -> Option<(u64, int)>
    decreases bytes.len() - pos,
{
    if pos < 0 || pos >= bytes.len() {
        None
    } else {
        let b = bytes[pos];
        if b < 128 {
            Some((b as u64, pos + 1))
        } else {
            match dec_varint(bytes, pos + 1) {
                None => None,
                Some(t) => {
                    let value = 128 * (t.0 as int) + (b - 128);
                    if value <= u64::MAX {
                        Some((value as u64, t.1))
                    } else {
                        None
                    }
                },
            }
        }
    }
}

/// A successful varint decode consumes at least one byte and stays inside
/// the buffer.
pub proof fn lemma_dec_varint_bounds(bytes: Seq<u8>, pos: int)
    requires
        dec_varint(bytes, pos) is Some,
    ensures
        pos + 1 <= dec_varint(bytes, pos).unwrap().1 <= bytes.len(),
    decreases bytes.len() - pos,
{
    let b = bytes[pos];
    if b >= 128 {
        lemma_dec_varint_bounds(bytes, pos + 1);
    }
}

/// Decoding reverses encoding: wherever a buffer carries `varint(n)`, the
/// decoder read there yields `n` and stops just past it.
pub proof fn lemma_varint_round_trip(bytes: Seq<u8>, pos: int, n: u64)
    requires
        0 <= pos,
        pos + varint(n).len() <= bytes.len(),
        bytes.subrange(pos, pos + varint(n).len()) == varint(n),
    ensures
        dec_varint(bytes, pos) == Some((n, pos + varint(n).len())),
    decreases n,
{
    let e = varint(n);
    assert(bytes[pos] == e[0]) by {
        assert(bytes.subrange(pos, pos + e.len() as int)[0] == bytes[pos]);
    }
    if n < 128 {
        assert(e[0] == n as u8);
    } else {
        let tail = varint((n / 128) as u64);
        assert(e[0] == (128 + (n % 128)) as u8);
        assert(bytes.subrange(pos + 1, pos + 1 + tail.len() as int) =~= tail) by {
            assert forall|i: int| 0 <= i < tail.len() implies bytes.subrange(
                pos + 1,
                pos + 1 + tail.len() as int,
            )[i] == tail[i] by {
                assert(bytes.subrange(pos, pos + e.len() as int)[i + 1] == bytes[pos + 1 + i]);
                assert(e[i + 1] == tail[i]);
            }
        }
        lemma_varint_round_trip(bytes, pos + 1, (n / 128) as u64);
        vstd::arithmetic::div_mod::lemma_fundamental_div_mod(n as int, 128);
    }
}

/// Appends `varint(n)` to `out`.
pub fn encode_varint(n: u64, out: &mut Vec<u8>)
    ensures
        final(out)@ == old(out)@ + varint(n),
    decreases n,
{
    if n < 128 {
        out.push(n as u8);
        proof {
            assert(out@ =~= old(out)@ + varint(n));
        }
    } else {
        out.push(((n % 128) + 128) as u8);
        encode_varint(n / 128, out);
        proof {
            assert(out@ =~= old(out)@ + varint(n));
        }
    }
}

/// Reads a varint at `pos`, exactly as [`dec_varint`] states.
pub fn decode_varint(bytes: &[u8], pos: usize) -> (r: Option<(u64, usize)>)
    requires
        pos <= bytes@.len(),
    ensures
        dec_varint(bytes@, pos as int) is None ==> r is None,
        dec_varint(bytes@, pos as int) matches Some(t) ==> r == Some((t.0, t.1 as usize)),
    decreases bytes@.len() - pos,
{
    if pos == bytes.len() {
        return None;
    }
    let b = bytes[pos];
    if b < 128 {
        Some((b as u64, pos + 1))
    } else {
        match decode_varint(bytes, pos + 1) {
            None => None,
            Some((v, p)) => {
                proof {
                    lemma_dec_varint_bounds(bytes@, pos + 1 as int);
                }
                let low = (b - 128) as u64;
                if v <= (u64::MAX - low) / 128 {
                    assert(128 * (v as int) + (low as int) <= u64::MAX) by (nonlinear_arith)
                        requires
                            v <= (u64::MAX - low) / 128,
                            low < 128,
                    ;
                    Some((128 * v + low, p))
                } else {
                    assert(128 * (v as int) + (low as int) > u64::MAX) by (nonlinear_arith)
                        requires
                            v > (u64::MAX - low) / 128,
                            low < 128,
                    ;
                    None
                }
            },
        }
    }
}

/// Whether a text's UTF-8 encoding fits the codec's length prefix.
pub open spec fn wf_text(s: Seq<char>) -> bool {
    encode_utf8(s).len() <= u64::MAX
}

/// A length-delimited string: the byte count of its UTF-8 encoding as a
/// varint, then those bytes.
pub open spec fn enc_str(s: Seq<char>) -> Seq<u8> {
    varint(encode_utf8(s).len() as u64) + encode_utf8(s)
}

/// Decodes a length-delimited string at `pos`: a byte count, then that many
/// bytes, which must be valid UTF-8.
pub open spec fn dec_str(bytes: Seq<u8>, pos: int) -> Option<(Seq<char>, int)> {
    match dec_varint(bytes, pos) {
        None => None,
        Some(t) => {
            if t.1 + t.0 <= bytes.len() {
                let content = bytes.subrange(t.1, t.1 + t.0);
                if valid_utf8(content) {
                    Some((decode_utf8(content), t.1 + t.0))
                } else {
                    None
                }
            } else {
                None
            }
        },
    }
}

/// Relies on `String::from_utf8`: it succeeds exactly on valid UTF-8, and
/// the returned string's bytes are the input bytes.
#[verifier::external_body]
fn string_from_utf8(bytes: Vec<u8>) -> (r: Option<String>)
    ensures
        r is Some <==> valid_utf8(bytes@),
        r matches Some(s) ==> encode_utf8(s@) == bytes@,
{
    match String::from_utf8(bytes) {
        Ok(s) => Some(s),
        Err(_) => None,
    }
}

/// Decoding reverses encoding for strings: wherever a buffer carries
/// `enc_str(s)`, the decoder read there yields `s` and stops just past it.
pub proof fn lemma_str_round_trip(bytes: Seq<u8>, pos: int, s: Seq<char>)
    requires
        wf_text(s),
        0 <= pos,
        pos + enc_str(s).len() <= bytes.len(),
        bytes.subrange(pos, pos + enc_str(s).len()) == enc_str(s),
    ensures
        dec_str(bytes, pos) == Some((s, pos + enc_str(s).len())),
{
    let eb = encode_utf8(s);
    let v = varint(eb.len() as u64);
    let e = enc_str(s);
    assert(bytes.subrange(pos, pos + v.len() as int) =~= v) by {
        assert forall|i: int| 0 <= i < v.len() implies bytes.subrange(
            pos,
            pos + v.len() as int,
        )[i] == v[i] by {
            assert(bytes.subrange(pos, pos + e.len() as int)[i] == bytes[pos + i]);
            assert(e[i] == v[i]);
        }
    }
    lemma_varint_round_trip(bytes, pos, eb.len() as u64);
    let p = pos + v.len() as int;
    assert(bytes.subrange(p, p + eb.len() as int) =~= eb) by {
        assert forall|i: int| 0 <= i < eb.len() implies bytes.subrange(
            p,
            p + eb.len() as int,
        )[i] == eb[i] by {
            assert(bytes.subrange(pos, pos + e.len() as int)[v.len() + i] == bytes[p + i]);
            assert(e[v.len() + i] == eb[i]);
        }
    }
    encode_utf8_valid_utf8(s);
    encode_utf8_decode_utf8(s);
}

/// Appends `enc_str` of the text to `out`.
pub fn encode_text(s: &str, out: &mut Vec<u8>)
    ensures
        final(out)@ == old(out)@ + enc_str(s@),
{
    let mut bytes = s.as_bytes_vec();
    encode_varint(bytes.len() as u64, out);
    out.append(&mut bytes);
    proof {
        assert(out@ =~= old(out)@ + enc_str(s@));
    }
}

/// Reads a length-delimited string at `pos`, exactly as [`dec_str`] states.
pub fn decode_text(bytes: &[u8], pos: usize) -> (r: Option<(String, usize)>)
    requires
        pos <= bytes@.len(),
    ensures
        dec_str(bytes@, pos as int) is None ==> r is None,
        dec_str(bytes@, pos as int) matches Some(t) ==> (r matches Some(rt) && rt.0@ == t.0
            && rt.1 == t.1),
{
    let (n, p) = match decode_varint(bytes, pos) {
        None => {
            return None;
        },
        Some(t) => t,
    };
    proof {
        lemma_dec_varint_bounds(bytes@, pos as int);
    }
    if n > (bytes.len() - p) as u64 {
        return None;
    }
    let end = p + (n as usize);
    let content = slice_subrange(bytes, p, end);
    let owned = slice_to_vec(content);
    match string_from_utf8(owned) {
        Some(s) => {
            proof {
                encode_utf8_decode_utf8(s@);
            }
            Some((s, end))
        },
        None => None,
    }
}

/// A piece of an encoding placed inside a larger buffer stays readable at
/// its offset: if `whole` sits at `pos` and `piece` is `whole`'s slice from
/// `a` to `b`, then `piece` sits at `pos + a`.
proof fn lemma_piece(bytes: Seq<u8>, pos: int, whole: Seq<u8>, a: int, b: int, piece: Seq<u8>)
    requires
        0 <= pos,
        pos + whole.len() <= bytes.len(),
        bytes.subrange(pos, pos + whole.len()) == whole,
        0 <= a <= b <= whole.len(),
        whole.subrange(a, b) == piece,
    ensures
        bytes.subrange(pos + a, pos + b) == piece,
{
    assert(bytes.subrange(pos + a, pos + b) =~= piece) by {
        assert forall|i: int| 0 <= i < piece.len() implies bytes.subrange(
            pos + a,
            pos + b,
        )[i] == piece[i] by {
            assert(bytes.subrange(pos, pos + whole.len())[a + i] == bytes[pos + a + i]);
            assert(whole.subrange(a, b)[i] == whole[a + i]);
        }
    }
}

/// A byte of an encoding placed inside a larger buffer: if `whole` sits at
/// `pos`, then byte `i` of `whole` sits at `pos + i`.
proof fn lemma_piece_byte(bytes: Seq<u8>, pos: int, whole: Seq<u8>, i: int)
    requires
        0 <= pos,
        pos + whole.len() <= bytes.len(),
        bytes.subrange(pos, pos + whole.len()) == whole,
        0 <= i < whole.len(),
    ensures
        bytes[pos + i] == whole[i],
{
    assert(bytes.subrange(pos, pos + whole.len())[i] == bytes[pos + i]);
}

/// Three length-delimited string fields, numbered 1, 2, 3.
pub open spec fn enc_fields3(a: Seq<char>, b: Seq<char>, c: Seq<char>) -> Seq<u8> {
    seq![10u8] + enc_str(a) + seq![18u8] + enc_str(b) + seq![26u8] + enc_str(c)
}

/// Decodes three length-delimited string fields, numbered 1, 2, 3, starting
/// at `pos`.
pub open spec fn dec_fields3(bytes: Seq<u8>, pos: int) -> Option<((Seq<char>, Seq<char>, Seq<char>), int)> {
    if 0 <= pos < bytes.len() && bytes[pos] == 10u8 {
        match dec_str(bytes, pos + 1) {
            None => None,
            Some(ta) => {
                if ta.1 < bytes.len() && bytes[ta.1] == 18u8 {
                    match dec_str(bytes, ta.1 + 1) {
                        None => None,
                        Some(tb) => {
                            if tb.1 < bytes.len() && bytes[tb.1] == 26u8 {
                                match dec_str(bytes, tb.1 + 1) {
                                    None => None,
                                    Some(tc) => Some(((ta.0, tb.0, tc.0), tc.1)),
                                }
                            } else {
                                None
                            }
                        },
                    }
                } else {
                    None
                }
            },
        }
    } else {
        None
    }
}

/// Decoding reverses encoding for a three-string field group.
pub proof fn lemma_fields3_round_trip(
    bytes: Seq<u8>,
    pos: int,
    a: Seq<char>,
    b: Seq<char>,
    c: Seq<char>,
)
    requires
        wf_text(a),
        wf_text(b),
        wf_text(c),
        0 <= pos,
        pos + enc_fields3(a, b, c).len() <= bytes.len(),
        bytes.subrange(pos, pos + enc_fields3(a, b, c).len()) == enc_fields3(a, b, c),
    ensures
        dec_fields3(bytes, pos) == Some(((a, b, c), pos + enc_fields3(a, b, c).len())),
{
    let ea = enc_str(a);
    let eb = enc_str(b);
    let ec = enc_str(c);
    let e = enc_fields3(a, b, c);
    let oa: int = 1;
    let ob: int = oa + ea.len() + 1;
    let oc: int = ob + eb.len() + 1;
    assert(e[0] == 10u8);
    assert(e[ob - 1] == 18u8);
    assert(e[oc - 1] == 26u8);
    assert(e.subrange(oa, oa + ea.len() as int) =~= ea);
    assert(e.subrange(ob, ob + eb.len() as int) =~= eb);
    assert(e.subrange(oc, oc + ec.len() as int) =~= ec);
    lemma_piece_byte(bytes, pos, e, 0);
    lemma_piece_byte(bytes, pos, e, ob - 1);
    lemma_piece_byte(bytes, pos, e, oc - 1);
    lemma_piece(bytes, pos, e, oa, oa + ea.len() as int, ea);
    lemma_piece(bytes, pos, e, ob, ob + eb.len() as int, eb);
    lemma_piece(bytes, pos, e, oc, oc + ec.len() as int, ec);
    lemma_str_round_trip(bytes, pos + oa, a);
    lemma_str_round_trip(bytes, pos + ob, b);
    lemma_str_round_trip(bytes, pos + oc, c);
}

/// Appends the three-string field group to `out`.
fn encode_fields3(a: &str, b: &str, c: &str, out: &mut Vec<u8>)
    ensures
        final(out)@ == old(out)@ + enc_fields3(a@, b@, c@),
{
    out.push(10u8);
    encode_text(a, out);
    out.push(18u8);
    encode_text(b, out);
    out.push(26u8);
    encode_text(c, out);
    proof {
        assert(out@ =~= old(out)@ + enc_fields3(a@, b@, c@));
    }
}

/// Reads a three-string field group at `pos`, exactly as [`dec_fields3`]
/// states.
fn decode_fields3(bytes: &[u8], pos: usize) -> (r: Option<((String, String, String), usize)>)
    requires
        pos <= bytes@.len(),
    ensures
        dec_fields3(bytes@, pos as int) is None ==> r is None,
        dec_fields3(bytes@, pos as int) matches Some(t) ==> (r matches Some(rt) && rt.0.0@ == t.0.0
            && rt.0.1@ == t.0.1 && rt.0.2@ == t.0.2 && rt.1 == t.1),
{
    if pos >= bytes.len() {
        return None;
    }
    if bytes[pos] != 10 {
        return None;
    }
    let (a, pa) = match decode_text(bytes, pos + 1) {
        None => {
            return None;
        },
        Some(t) => t,
    };
    if pa >= bytes.len() {
        return None;
    }
    if bytes[pa] != 18 {
        return None;
    }
    let (b, pb) = match decode_text(bytes, pa + 1) {
        None => {
            return None;
        },
        Some(t) => t,
    };
    if pb >= bytes.len() {
        return None;
    }
    if bytes[pb] != 26 {
        return None;
    }
    let (c, pc) = match decode_text(bytes, pb + 1) {
        None => {
            return None;
        },
        Some(t) => t,
    };
    Some(((a, b, c), pc))
}

/// The encoding of a [`UserError`]: field 1 the code's numeric value as a
/// varint, field 2 the message.
pub open spec fn enc_user_error(v: UserErrorView) -> Seq<u8> {
    seq![8u8] + varint(code_value(v.code) as u64) + seq![18u8] + enc_str(v.msg)
}

/// Whether a [`UserErrorView`] can be encoded.
pub open spec fn wf_user_error(v: UserErrorView) -> bool {
    wf_text(v.msg)
}

/// Decodes a [`UserError`] message at `pos`. A numeric value that names no
/// code is rejected.
pub open spec fn dec_user_error_at(bytes: Seq<u8>, pos: int) -> Option<(UserErrorView, int)> {
    if 0 <= pos < bytes.len() && bytes[pos] == 8u8 {
        match dec_varint(bytes, pos + 1) {
            None => None,
            Some(tv) => {
                if tv.0 <= u32::MAX {
                    match spec_code_from_value(tv.0 as u32) {
                        None => None,
                        Some(code) => {
                            if tv.1 < bytes.len() && bytes[tv.1] == 18u8 {
                                match dec_str(bytes, tv.1 + 1) {
                                    None => None,
                                    Some(tm) => Some(
                                        (UserErrorView { code, msg: tm.0 }, tm.1),
                                    ),
                                }
                            } else {
                                None
                            }
                        },
                    }
                } else {
                    None
                }
            },
        }
    } else {
        None
    }
}

/// The whole-buffer decoding of a [`UserError`]: the message must fill the
/// buffer exactly.
pub open spec fn spec_decode_user_error(bytes: Seq<u8>) -> Option<UserErrorView> {
    match dec_user_error_at(bytes, 0) {
        None => None,
        Some(t) => if t.1 == bytes.len() {
            Some(t.0)
        } else {
            None
        },
    }
}

/// Decoding reverses encoding for [`UserError`] messages.
pub proof fn lemma_user_error_at_round_trip(bytes: Seq<u8>, pos: int, v: UserErrorView)
    requires
        wf_user_error(v),
        0 <= pos,
        pos + enc_user_error(v).len() <= bytes.len(),
        bytes.subrange(pos, pos + enc_user_error(v).len()) == enc_user_error(v),
    ensures
        dec_user_error_at(bytes, pos) == Some((v, pos + enc_user_error(v).len())),
{
    let cv = varint(code_value(v.code) as u64);
    let em = enc_str(v.msg);
    let e = enc_user_error(v);
    let ov: int = 1;
    let om: int = ov + cv.len() + 1;
    assert(e[0] == 8u8);
    assert(e[om - 1] == 18u8);
    assert(e.subrange(ov, ov + cv.len() as int) =~= cv);
    assert(e.subrange(om, om + em.len() as int) =~= em);
    lemma_piece_byte(bytes, pos, e, 0);
    lemma_piece_byte(bytes, pos, e, om - 1);
    lemma_piece(bytes, pos, e, ov, ov + cv.len() as int, cv);
    lemma_piece(bytes, pos, e, om, om + em.len() as int, em);
    lemma_varint_round_trip(bytes, pos + ov, code_value(v.code) as u64);
    lemma_code_value_round_trip(v.code);
    lemma_str_round_trip(bytes, pos + om, v.msg);
}

/// Encoding then decoding a [`UserError`] yields the value that went in.
pub proof fn lemma_user_error_codec_round_trip(v: UserErrorView)
    requires
        wf_user_error(v),
    ensures
        spec_decode_user_error(enc_user_error(v)) == Some(v),
{
    let e = enc_user_error(v);
    assert(e.subrange(0, e.len() as int) =~= e);
    lemma_user_error_at_round_trip(e, 0, v);
}

/// Encodes a [`UserError`] over the stable field numbers.
pub fn encode_user_error(e: &UserError) -> (r: Vec<u8>)
    ensures
        r@ == enc_user_error(e@),
{
    let mut out: Vec<u8> = Vec::new();
    out.push(8u8);
    encode_varint(e.code.value() as u64, &mut out);
    out.push(18u8);
    encode_text(e.msg.as_str(), &mut out);
    proof {
        assert(out@ =~= enc_user_error(e@));
    }
    out
}

/// Decodes a [`UserError`] from a whole buffer, exactly as
/// [`spec_decode_user_error`] states.
pub fn decode_user_error(bytes: &[u8]) -> (r: Option<UserError>)
    ensures
        spec_decode_user_error(bytes@) is None ==> r is None,
        spec_decode_user_error(bytes@) matches Some(v) ==> (r matches Some(e) && e@ == v),
{
    if bytes.len() == 0 {
        return None;
    }
    if bytes[0] != 8 {
        return None;
    }
    let (cv, p1) = match decode_varint(bytes, 1) {
        None => {
            return None;
        },
        Some(t) => t,
    };
    proof {
        lemma_dec_varint_bounds(bytes@, 1);
    }
    if cv > u32::MAX as u64 {
        return None;
    }
    let code = match ErrorCode::from_value(cv as u32) {
        None => {
            return None;
        },
        Some(c) => c,
    };
    if p1 >= bytes.len() {
        return None;
    }
    if bytes[p1] != 18 {
        return None;
    }
    let (msg, p2) = match decode_text(bytes, p1 + 1) {
        None => {
            return None;
        },
        Some(t) => t,
    };
    if p2 != bytes.len() {
        return None;
    }
    Some(UserError { code, msg })
}

/// The encoding of a [`CreateWorkspaceParams`]: fields 1, 2, 3 its name,
/// description and user id.
pub open spec fn enc_params(v: WorkspaceFieldsView) -> Seq<u8> {
    enc_fields3(v.name, v.desc, v.user_id)
}

/// Whether a [`WorkspaceFieldsView`] can be encoded.
pub open spec fn wf_fields(v: WorkspaceFieldsView) -> bool {
    wf_text(v.name) && wf_text(v.desc) && wf_text(v.user_id)
}

/// The whole-buffer decoding of a [`CreateWorkspaceParams`].
pub open spec fn spec_decode_params(bytes: Seq<u8>) -> Option<WorkspaceFieldsView> {
    match dec_fields3(bytes, 0) {
        None => None,
        Some(t) => if t.1 == bytes.len() {
            Some(WorkspaceFieldsView { name: t.0.0, desc: t.0.1, user_id: t.0.2 })
        } else {
            None
        },
    }
}

/// Encoding then decoding a [`CreateWorkspaceParams`] yields the value that
/// went in.
pub proof fn lemma_params_codec_round_trip(v: WorkspaceFieldsView)
    requires
        wf_fields(v),
    ensures
        spec_decode_params(enc_params(v)) == Some(v),
{
    let e = enc_params(v);
    assert(e.subrange(0, e.len() as int) =~= e);
    lemma_fields3_round_trip(e, 0, v.name, v.desc, v.user_id);
}

/// Encodes a [`CreateWorkspaceParams`] over the stable field numbers.
pub fn encode_params(p: &CreateWorkspaceParams) -> (r: Vec<u8>)
    ensures
        r@ == enc_params(p@),
{
    let mut out: Vec<u8> = Vec::new();
    encode_fields3(p.name.as_str(), p.desc.as_str(), p.user_id.as_str(), &mut out);
    proof {
        assert(out@ =~= enc_params(p@));
    }
    out
}

/// Decodes a [`CreateWorkspaceParams`] from a whole buffer, exactly as
/// [`spec_decode_params`] states.
pub fn decode_params(bytes: &[u8]) -> (r: Option<CreateWorkspaceParams>)
    ensures
        spec_decode_params(bytes@) is None ==> r is None,
        spec_decode_params(bytes@) matches Some(v) ==> (r matches Some(p) && p@ == v),
{
    let ((name, desc, user_id), p) = match decode_fields3(bytes, 0) {
        None => {
            return None;
        },
        Some(t) => t,
    };
    if p != bytes.len() {
        return None;
    }
    Some(CreateWorkspaceParams { name, desc, user_id })
}

/// The encoding of an [`App`]: fields 1, 2, 3 its id, name and description.
pub open spec fn enc_app(a: AppView) -> Seq<u8> {
    enc_fields3(a.id, a.name, a.desc)
}

/// Whether an [`AppView`] can be encoded, its entry length prefix included.
pub open spec fn wf_app(a: AppView) -> bool {
    wf_text(a.id) && wf_text(a.name) && wf_text(a.desc) && enc_app(a).len() <= u64::MAX
}

/// One entry of a repeated `App` field: tag 1, the entry's byte count, the
/// entry.
pub open spec fn enc_app_entry(a: AppView) -> Seq<u8> {
    seq![10u8] + varint(enc_app(a).len() as u64) + enc_app(a)
}

/// A repeated `App` field: the entries in order.
pub open spec fn enc_app_list(apps: Seq<AppView>) -> Seq<u8>
    decreases apps.len(),
{
    if apps.len() == 0 {
        Seq::empty()
    } else {
        enc_app_entry(apps[0]) + enc_app_list(apps.drop_first())
    }
}

/// Decodes one [`App`] message at `pos`.
pub open spec fn dec_app_at(bytes: Seq<u8>, pos: int) -> Option<(AppView, int)> {
    match dec_fields3(bytes, pos) {
        None => None,
        Some(t) => Some((AppView { id: t.0.0, name: t.0.1, desc: t.0.2 }, t.1)),
    }
}

/// Decodes a repeated `App` field that must fill `pos .. end` exactly.
pub open spec fn dec_app_list(bytes: Seq<u8>, pos: int, end: int) -> Option<Seq<AppView>>
    decreases end - pos,
{
    if !(0 <= pos <= end <= bytes.len()) {
        None
    } else if pos == end {
        Some(Seq::empty())
    } else if bytes[pos] == 10u8 {
        match dec_varint(bytes, pos + 1) {
            None => None,
            Some(tv) => {
                if pos + 1 < tv.1 && tv.1 + tv.0 <= end {
                    match dec_app_at(bytes, tv.1) {
                        None => None,
                        Some(ta) => {
                            if ta.1 == tv.1 + tv.0 {
                                match dec_app_list(bytes, tv.1 + tv.0, end) {
                                    None => None,
                                    Some(rest) => Some(seq![ta.0] + rest),
                                }
                            } else {
                                None
                            }
                        },
                    }
                } else {
                    None
                }
            },
        }
    } else {
        None
    }
}

/// Entry lists encode piecewise: the encoding of a concatenation is the
/// concatenation of the encodings.
pub proof fn lemma_enc_app_list_concat(s1: Seq<AppView>, s2: Seq<AppView>)
    ensures
        enc_app_list(s1 + s2) == enc_app_list(s1) + enc_app_list(s2),
    decreases s1.len(),
{
    if s1.len() == 0 {
        assert(s1 + s2 =~= s2);
        assert(enc_app_list(s1) + enc_app_list(s2) =~= enc_app_list(s2));
    } else {
        assert((s1 + s2).drop_first() =~= s1.drop_first() + s2);
        lemma_enc_app_list_concat(s1.drop_first(), s2);
        assert(enc_app_list(s1 + s2) =~= enc_app_list(s1) + enc_app_list(s2));
    }
}

/// Decoding reverses encoding for one [`App`] message.
pub proof fn lemma_app_at_round_trip(bytes: Seq<u8>, pos: int, a: AppView)
    requires
        wf_app(a),
        0 <= pos,
        pos + enc_app(a).len() <= bytes.len(),
        bytes.subrange(pos, pos + enc_app(a).len()) == enc_app(a),
    ensures
        dec_app_at(bytes, pos) == Some((a, pos + enc_app(a).len())),
{
    lemma_fields3_round_trip(bytes, pos, a.id, a.name, a.desc);
}

/// Decoding reverses encoding for a repeated `App` field.
pub proof fn lemma_app_list_round_trip(bytes: Seq<u8>, pos: int, apps: Seq<AppView>)
    requires
        forall|i: int| 0 <= i < apps.len() ==> wf_app(#[trigger] apps[i]),
        0 <= pos,
        pos + enc_app_list(apps).len() <= bytes.len(),
        bytes.subrange(pos, pos + enc_app_list(apps).len()) == enc_app_list(apps),
    ensures
        dec_app_list(bytes, pos, pos + enc_app_list(apps).len()) == Some(apps),
    decreases apps.len(),
{
    let e = enc_app_list(apps);
    let end = pos + e.len();
    if apps.len() == 0 {
        assert(apps =~= Seq::<AppView>::empty());
    } else {
        let a0 = apps[0];
        let ea = enc_app(a0);
        let v = varint(ea.len() as u64);
        let entry = enc_app_entry(a0);
        let rest = apps.drop_first();
        let erest = enc_app_list(rest);
        assert(e[0] == 10u8);
        assert(e.subrange(1, 1 + v.len() as int) =~= v);
        assert(e.subrange(1 + v.len() as int, entry.len() as int) =~= ea);
        assert(e.subrange(entry.len() as int, e.len() as int) =~= erest);
        lemma_piece_byte(bytes, pos, e, 0);
        lemma_piece(bytes, pos, e, 1, 1 + v.len() as int, v);
        lemma_piece(bytes, pos, e, 1 + v.len() as int, entry.len() as int, ea);
        lemma_piece(bytes, pos, e, entry.len() as int, e.len() as int, erest);
        lemma_varint_round_trip(bytes, pos + 1, ea.len() as u64);
        let p1 = pos + 1 + v.len() as int;
        lemma_app_at_round_trip(bytes, p1, a0);
        assert(forall|i: int| 0 <= i < rest.len() ==> wf_app(#[trigger] rest[i]));
        lemma_app_list_round_trip(bytes, pos + entry.len() as int, rest);
        assert(seq![a0] + rest =~= apps);
    }
}

/// The encoding of a [`Workspace`]: fields 1, 2, 3 its id, name and
/// description, field 4 its applications as a nested repeated block.
pub open spec fn enc_workspace(w: WorkspaceView) -> Seq<u8> {
    enc_fields3(w.id, w.name, w.desc) + seq![34u8] + varint(enc_app_list(w.apps).len() as u64)
        + enc_app_list(w.apps)
}

/// Whether a [`WorkspaceView`] can be encoded, its entry length prefix
/// included.
pub open spec fn wf_workspace(w: WorkspaceView) -> bool {
    wf_text(w.id) && wf_text(w.name) && wf_text(w.desc) && (forall|i: int|
        0 <= i < w.apps.len() ==> wf_app(#[trigger] w.apps[i])) && enc_app_list(w.apps).len()
        <= u64::MAX && enc_workspace(w).len() <= u64::MAX
}

/// Decodes one [`Workspace`] message at `pos`.
pub open spec fn dec_workspace_at(bytes: Seq<u8>, pos: int) -> Option<(WorkspaceView, int)> {
    match dec_fields3(bytes, pos) {
        None => None,
        Some(tf) => {
            if tf.1 < bytes.len() && bytes[tf.1] == 34u8 {
                match dec_varint(bytes, tf.1 + 1) {
                    None => None,
                    Some(tv) => {
                        if tv.1 + tv.0 <= bytes.len() {
                            match dec_app_list(bytes, tv.1, tv.1 + tv.0) {
                                None => None,
                                Some(apps) => Some(
                                    (
                                        WorkspaceView {
                                            id: tf.0.0,
                                            name: tf.0.1,
                                            desc: tf.0.2,
                                            apps,
                                        },
                                        tv.1 + tv.0,
                                    ),
                                ),
                            }
                        } else {
                            None
                        }
                    },
                }
            } else {
                None
            }
        },
    }
}

/// Decoding reverses encoding for one [`Workspace`] message.
pub proof fn lemma_workspace_at_round_trip(bytes: Seq<u8>, pos: int, w: WorkspaceView)
    requires
        wf_workspace(w),
        0 <= pos,
        pos + enc_workspace(w).len() <= bytes.len(),
        bytes.subrange(pos, pos + enc_workspace(w).len()) == enc_workspace(w),
    ensures
        dec_workspace_at(bytes, pos) == Some((w, pos + enc_workspace(w).len())),
{
    let f = enc_fields3(w.id, w.name, w.desc);
    let al = enc_app_list(w.apps);
    let v = varint(al.len() as u64);
    let e = enc_workspace(w);
    let of: int = f.len() as int;
    let ov: int = of + 1;
    let oa: int = ov + v.len() as int;
    assert(e.subrange(0, of) =~= f);
    assert(e[of] == 34u8);
    assert(e.subrange(ov, oa) =~= v);
    assert(e.subrange(oa, e.len() as int) =~= al);
    lemma_piece(bytes, pos, e, 0, of, f);
    lemma_piece_byte(bytes, pos, e, of);
    lemma_piece(bytes, pos, e, ov, oa, v);
    lemma_piece(bytes, pos, e, oa, e.len() as int, al);
    lemma_fields3_round_trip(bytes, pos, w.id, w.name, w.desc);
    lemma_varint_round_trip(bytes, pos + ov, al.len() as u64);
    lemma_app_list_round_trip(bytes, pos + oa, w.apps);
}

/// The whole-buffer decoding of a [`Workspace`].
pub open spec fn spec_decode_workspace(bytes: Seq<u8>) -> Option<WorkspaceView> {
    match dec_workspace_at(bytes, 0) {
        None => None,
        Some(t) => if t.1 == bytes.len() {
            Some(t.0)
        } else {
            None
        },
    }
}

/// Encoding then decoding a [`Workspace`] yields the value that went in.
pub proof fn lemma_workspace_codec_round_trip(w: WorkspaceView)
    requires
        wf_workspace(w),
    ensures
        spec_decode_workspace(enc_workspace(w)) == Some(w),
{
    let e = enc_workspace(w);
    assert(e.subrange(0, e.len() as int) =~= e);
    lemma_workspace_at_round_trip(e, 0, w);
}

/// One entry of the repeated `Workspace` field: tag 1, the entry's byte
/// count, the entry.
pub open spec fn enc_workspace_entry(w: WorkspaceView) -> Seq<u8> {
    seq![10u8] + varint(enc_workspace(w).len() as u64) + enc_workspace(w)
}

/// The encoding of a [`RepeatedWorkspace`]: its items as a repeated field,
/// in order.
pub open spec fn enc_workspace_list(ws: Seq<WorkspaceView>) -> Seq<u8>
    decreases ws.len(),
{
    if ws.len() == 0 {
        Seq::empty()
    } else {
        enc_workspace_entry(ws[0]) + enc_workspace_list(ws.drop_first())
    }
}

/// Whether every workspace of a list can be encoded.
pub open spec fn wf_workspace_list(ws: Seq<WorkspaceView>) -> bool {
    forall|i: int| 0 <= i < ws.len() ==> wf_workspace(#[trigger] ws[i])
}

/// Decodes a repeated `Workspace` field that must fill `pos .. end` exactly.
pub open spec fn dec_workspace_list(bytes: Seq<u8>, pos: int, end: int) -> Option<
    Seq<WorkspaceView>,
>
    decreases end - pos,
{
    if !(0 <= pos <= end <= bytes.len()) {
        None
    } else if pos == end {
        Some(Seq::empty())
    } else if bytes[pos] == 10u8 {
        match dec_varint(bytes, pos + 1) {
            None => None,
            Some(tv) => {
                if pos + 1 < tv.1 && tv.1 + tv.0 <= end {
                    match dec_workspace_at(bytes, tv.1) {
                        None => None,
                        Some(tw) => {
                            if tw.1 == tv.1 + tv.0 {
                                match dec_workspace_list(bytes, tv.1 + tv.0, end) {
                                    None => None,
                                    Some(rest) => Some(seq![tw.0] + rest),
                                }
                            } else {
                                None
                            }
                        },
                    }
                } else {
                    None
                }
            },
        }
    } else {
        None
    }
}

/// Entry lists encode piecewise, for workspaces as for apps.
pub proof fn lemma_enc_workspace_list_concat(s1: Seq<WorkspaceView>, s2: Seq<WorkspaceView>)
    ensures
        enc_workspace_list(s1 + s2) == enc_workspace_list(s1) + enc_workspace_list(s2),
    decreases s1.len(),
{
    if s1.len() == 0 {
        assert(s1 + s2 =~= s2);
        assert(enc_workspace_list(s1) + enc_workspace_list(s2) =~= enc_workspace_list(s2));
    } else {
        assert((s1 + s2).drop_first() =~= s1.drop_first() + s2);
        lemma_enc_workspace_list_concat(s1.drop_first(), s2);
        assert(enc_workspace_list(s1 + s2) =~= enc_workspace_list(s1) + enc_workspace_list(s2));
    }
}

/// Decoding reverses encoding for a repeated `Workspace` field.
#[verifier::rlimit(100)]
#[verifier::spinoff_prover]
pub proof fn lemma_workspace_list_round_trip(bytes: Seq<u8>, pos: int, ws: Seq<WorkspaceView>)
    requires
        wf_workspace_list(ws),
        0 <= pos,
        pos + enc_workspace_list(ws).len() <= bytes.len(),
        bytes.subrange(pos, pos + enc_workspace_list(ws).len()) == enc_workspace_list(ws),
    ensures
        dec_workspace_list(bytes, pos, pos + enc_workspace_list(ws).len()) == Some(ws),
    decreases ws.len(),
{
    let e = enc_workspace_list(ws);
    let end = pos + e.len();
    if ws.len() == 0 {
        assert(ws =~= Seq::<WorkspaceView>::empty());
    } else {
        let w0 = ws[0];
        let ew = enc_workspace(w0);
        let v = varint(ew.len() as u64);
        let entry = enc_workspace_entry(w0);
        let rest = ws.drop_first();
        let erest = enc_workspace_list(rest);
        assert(e[0] == 10u8);
        assert(e.subrange(1, 1 + v.len() as int) =~= v);
        assert(e.subrange(1 + v.len() as int, entry.len() as int) =~= ew);
        assert(e.subrange(entry.len() as int, e.len() as int) =~= erest);
        lemma_piece_byte(bytes, pos, e, 0);
        lemma_piece(bytes, pos, e, 1, 1 + v.len() as int, v);
        lemma_piece(bytes, pos, e, 1 + v.len() as int, entry.len() as int, ew);
        lemma_piece(bytes, pos, e, entry.len() as int, e.len() as int, erest);
        lemma_varint_round_trip(bytes, pos + 1, ew.len() as u64);
        let p1 = pos + 1 + v.len() as int;
        lemma_workspace_at_round_trip(bytes, p1, w0);
        assert(wf_workspace_list(rest));
        lemma_workspace_list_round_trip(bytes, pos + entry.len() as int, rest);
        assert(seq![w0] + rest =~= ws);
    }
}

/// The whole-buffer decoding of a [`RepeatedWorkspace`].
pub open spec fn spec_decode_repeated_workspace(bytes: Seq<u8>) -> Option<Seq<WorkspaceView>> {
    dec_workspace_list(bytes, 0, bytes.len() as int)
}

/// Encoding then decoding a [`RepeatedWorkspace`] yields the value that went
/// in, item for item and in order.
pub proof fn lemma_repeated_workspace_codec_round_trip(ws: Seq<WorkspaceView>)
    requires
        wf_workspace_list(ws),
    ensures
        spec_decode_repeated_workspace(enc_workspace_list(ws)) == Some(ws),
{
    let e = enc_workspace_list(ws);
    assert(e.subrange(0, e.len() as int) =~= e);
    lemma_workspace_list_round_trip(e, 0, ws);
}

/// Appends one [`App`] message to `out`.
fn encode_app(a: &App, out: &mut Vec<u8>)
    ensures
        final(out)@ == old(out)@ + enc_app(a@),
{
    encode_fields3(a.id.as_str(), a.name.as_str(), a.desc.as_str(), out);
}

/// Appends a repeated `App` field to `out`, one length-delimited entry per
/// item, in order.
fn encode_app_list(items: &Vec<App>, out: &mut Vec<u8>)
    ensures
        final(out)@ == old(out)@ + enc_app_list(items@.map_values(|a: App| a@)),
{
    let ghost apps = items@.map_values(|a: App| a@);
    proof {
        assert(apps.take(0) =~= Seq::<AppView>::empty());
    }
    let mut i: usize = 0;
    while i < items.len()
        invariant
            i <= items.len(),
            apps == items@.map_values(|a: App| a@),
            out@ == old(out)@ + enc_app_list(apps.take(i as int)),
        decreases items@.len() - i,
    {
        let mut tmp: Vec<u8> = Vec::new();
        encode_app(&items[i], &mut tmp);
        out.push(10u8);
        encode_varint(tmp.len() as u64, out);
        out.append(&mut tmp);
        proof {
            let a = apps[i as int];
            lemma_enc_app_list_concat(apps.take(i as int), seq![a]);
            assert(apps.take(i as int) + seq![a] =~= apps.take(i as int + 1));
            assert(seq![a].drop_first() =~= Seq::<AppView>::empty());
            assert(enc_app_list(seq![a].drop_first()) == Seq::<u8>::empty());
            assert(enc_app_list(seq![a]) =~= enc_app_entry(a));
            assert(out@ =~= old(out)@ + enc_app_list(apps.take(i as int + 1)));
        }
        i += 1;
    }
    proof {
        assert(apps.take(items@.len() as int) =~= apps);
    }
}

/// Reads one [`App`] message at `pos`, exactly as [`dec_app_at`] states.
fn decode_app_at(bytes: &[u8], pos: usize) -> (r: Option<(App, usize)>)
    requires
        pos <= bytes@.len(),
    ensures
        dec_app_at(bytes@, pos as int) is None ==> r is None,
        dec_app_at(bytes@, pos as int) matches Some(t) ==> (r matches Some(rt) && rt.0@ == t.0
            && rt.1 == t.1),
{
    match decode_fields3(bytes, pos) {
        None => None,
        Some(((id, name, desc), p)) => Some((App { id, name, desc }, p)),
    }
}

/// Reads a repeated `App` field filling `pos .. end`, exactly as
/// [`dec_app_list`] states.
fn decode_app_list(bytes: &[u8], pos: usize, end: usize) -> (r: Option<Vec<App>>)
    requires
        pos <= end <= bytes@.len(),
    ensures
        dec_app_list(bytes@, pos as int, end as int) is None ==> r is None,
        dec_app_list(bytes@, pos as int, end as int) matches Some(s) ==> (r matches Some(v)
            && v@.map_values(|a: App| a@) == s),
    decreases end - pos,
{
    if pos == end {
        let v: Vec<App> = Vec::new();
        proof {
            assert(v@.map_values(|a: App| a@) =~= Seq::<AppView>::empty());
        }
        return Some(v);
    }
    if bytes[pos] != 10 {
        return None;
    }
    let (n, p1) = match decode_varint(bytes, pos + 1) {
        None => {
            return None;
        },
        Some(t) => t,
    };
    proof {
        lemma_dec_varint_bounds(bytes@, pos as int + 1);
    }
    if p1 > end {
        return None;
    }
    if n > (end - p1) as u64 {
        return None;
    }
    let stop = p1 + n as usize;
    let (app, q) = match decode_app_at(bytes, p1) {
        None => {
            return None;
        },
        Some(t) => t,
    };
    if q != stop {
        return None;
    }
    let mut rest = match decode_app_list(bytes, stop, end) {
        None => {
            return None;
        },
        Some(v) => v,
    };
    let mut out_v: Vec<App> = Vec::new();
    out_v.push(app);
    out_v.append(&mut rest);
    proof {
        let s = dec_app_list(bytes@, pos as int, end as int).unwrap();
        assert(out_v@.map_values(|a: App| a@) =~= s);
    }
    Some(out_v)
}

/// Appends one [`Workspace`] message to `out`.
fn encode_workspace_to(w: &Workspace, out: &mut Vec<u8>)
    ensures
        final(out)@ == old(out)@ + enc_workspace(w@),
{
    encode_fields3(w.id.as_str(), w.name.as_str(), w.desc.as_str(), out);
    out.push(34u8);
    let mut tmp: Vec<u8> = Vec::new();
    encode_app_list(&w.apps.items, &mut tmp);
    encode_varint(tmp.len() as u64, out);
    out.append(&mut tmp);
    proof {
        assert(out@ =~= old(out)@ + enc_workspace(w@));
    }
}

/// Encodes a [`Workspace`] over the stable field numbers.
pub fn encode_workspace(w: &Workspace) -> (r: Vec<u8>)
    ensures
        r@ == enc_workspace(w@),
{
    let mut out: Vec<u8> = Vec::new();
    encode_workspace_to(w, &mut out);
    proof {
        assert(out@ =~= enc_workspace(w@));
    }
    out
}

/// Reads one [`Workspace`] message at `pos`, exactly as [`dec_workspace_at`]
/// states.
fn decode_workspace_at(bytes: &[u8], pos: usize) -> (r: Option<(Workspace, usize)>)
    requires
        pos <= bytes@.len(),
    ensures
        dec_workspace_at(bytes@, pos as int) is None ==> r is None,
        dec_workspace_at(bytes@, pos as int) matches Some(t) ==> (r matches Some(rt) && rt.0@ == t.0
            && rt.1 == t.1),
{
    let ((id, name, desc), pf) = match decode_fields3(bytes, pos) {
        None => {
            return None;
        },
        Some(t) => t,
    };
    if pf >= bytes.len() {
        return None;
    }
    if bytes[pf] != 34 {
        return None;
    }
    let (n, p1) = match decode_varint(bytes, pf + 1) {
        None => {
            return None;
        },
        Some(t) => t,
    };
    proof {
        lemma_dec_varint_bounds(bytes@, pf as int + 1);
    }
    if n > (bytes.len() - p1) as u64 {
        return None;
    }
    let stop = p1 + n as usize;
    let apps_items = match decode_app_list(bytes, p1, stop) {
        None => {
            return None;
        },
        Some(v) => v,
    };
    Some((Workspace { id, name, desc, apps: RepeatedApp { items: apps_items } }, stop))
}

/// Decodes a [`Workspace`] from a whole buffer, exactly as
/// [`spec_decode_workspace`] states.
pub fn decode_workspace(bytes: &[u8]) -> (r: Option<Workspace>)
    ensures
        spec_decode_workspace(bytes@) is None ==> r is None,
        spec_decode_workspace(bytes@) matches Some(v) ==> (r matches Some(w) && w@ == v),
{
    match decode_workspace_at(bytes, 0) {
        None => None,
        Some((w, p)) => {
            if p == bytes.len() {
                Some(w)
            } else {
                None
            }
        },
    }
}

/// Encodes a [`RepeatedWorkspace`] over the stable field numbers: one
/// length-delimited entry per item, in order.
pub fn encode_repeated_workspace(rw: &RepeatedWorkspace) -> (r: Vec<u8>)
    ensures
        r@ == enc_workspace_list(rw@),
{
    let ghost ws = rw.items@.map_values(|w: Workspace| w@);
    let mut out: Vec<u8> = Vec::new();
    proof {
        assert(ws.take(0) =~= Seq::<WorkspaceView>::empty());
        assert(out@ =~= Seq::<u8>::empty() + enc_workspace_list(ws.take(0)));
    }
    let mut i: usize = 0;
    while i < rw.items.len()
        invariant
            i <= rw.items.len(),
            ws == rw.items@.map_values(|w: Workspace| w@),
            out@ == enc_workspace_list(ws.take(i as int)),
        decreases rw.items@.len() - i,
    {
        let mut tmp: Vec<u8> = Vec::new();
        encode_workspace_to(&rw.items[i], &mut tmp);
        out.push(10u8);
        encode_varint(tmp.len() as u64, &mut out);
        out.append(&mut tmp);
        proof {
            let w = ws[i as int];
            lemma_enc_workspace_list_concat(ws.take(i as int), seq![w]);
            assert(ws.take(i as int) + seq![w] =~= ws.take(i as int + 1));
            assert(seq![w].drop_first() =~= Seq::<WorkspaceView>::empty());
            assert(enc_workspace_list(seq![w].drop_first()) == Seq::<u8>::empty());
            assert(enc_workspace_list(seq![w]) =~= enc_workspace_entry(w));
            assert(out@ =~= enc_workspace_list(ws.take(i as int + 1)));
        }
        i += 1;
    }
    proof {
        assert(ws.take(rw.items@.len() as int) =~= ws);
    }
    out
}

/// Reads a repeated `Workspace` field filling `pos .. end`, exactly as
/// [`dec_workspace_list`] states.
fn decode_workspace_list(bytes: &[u8], pos: usize, end: usize) -> (r: Option<Vec<Workspace>>)
    requires
        pos <= end <= bytes@.len(),
    ensures
        dec_workspace_list(bytes@, pos as int, end as int) is None ==> r is None,
        dec_workspace_list(bytes@, pos as int, end as int) matches Some(s) ==> (r matches Some(v)
            && v@.map_values(|w: Workspace| w@) == s),
    decreases end - pos,
{
    if pos == end {
        let v: Vec<Workspace> = Vec::new();
        proof {
            assert(v@.map_values(|w: Workspace| w@) =~= Seq::<WorkspaceView>::empty());
        }
        return Some(v);
    }
    if bytes[pos] != 10 {
        return None;
    }
    let (n, p1) = match decode_varint(bytes, pos + 1) {
        None => {
            return None;
        },
        Some(t) => t,
    };
    proof {
        lemma_dec_varint_bounds(bytes@, pos as int + 1);
    }
    if p1 > end {
        return None;
    }
    if n > (end - p1) as u64 {
        return None;
    }
    let stop = p1 + n as usize;
    let (w, q) = match decode_workspace_at(bytes, p1) {
        None => {
            return None;
        },
        Some(t) => t,
    };
    if q != stop {
        return None;
    }
    let mut rest = match decode_workspace_list(bytes, stop, end) {
        None => {
            return None;
        },
        Some(v) => v,
    };
    let mut out_v: Vec<Workspace> = Vec::new();
    out_v.push(w);
    out_v.append(&mut rest);
    proof {
        let s = dec_workspace_list(bytes@, pos as int, end as int).unwrap();
        assert(out_v@.map_values(|w: Workspace| w@) =~= s);
    }
    Some(out_v)
}

/// Decodes a [`RepeatedWorkspace`] from a whole buffer, exactly as
/// [`spec_decode_repeated_workspace`] states.
pub fn decode_repeated_workspace(bytes: &[u8]) -> (r: Option<RepeatedWorkspace>)
    ensures
        spec_decode_repeated_workspace(bytes@) is None ==> r is None,
        spec_decode_repeated_workspace(bytes@) matches Some(s) ==> (r matches Some(rw) && rw@ == s),
{
    match decode_workspace_list(bytes, 0, bytes.len()) {
        None => None,
        Some(v) => Some(RepeatedWorkspace { items: v }),
    }
}

} // verus!
