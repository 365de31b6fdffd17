//! The one normalization applied to a body before model decoding: the
//! field name `type` collides with a reserved identifier in the model
//! structs, so the exact byte sequence `"type":` is rewritten to
//! `"type_":` before the body is parsed.  Only that exact sequence is
//! touched; no other occurrence of the word is.

use vstd::prelude::*;
use vstd::string::StrSliceExecFns;
use vstd::utf8::encode_utf8;

verus! {

/// The matched sequence: `"type":`.
pub open spec fn type_key() -> Seq<u8> {
    seq![0x22u8, 0x74, 0x79, 0x70, 0x65, 0x22, 0x3a]
}

/// The replacement: `"type_":`.
pub open spec fn type_key_renamed() -> Seq<u8> {
    seq![0x22u8, 0x74, 0x79, 0x70, 0x65, 0x5f, 0x22, 0x3a]
}

/// Every occurrence of `"type":` replaced by `"type_":`, scanning left to
/// right without overlap; all other bytes stay as they are.
pub open spec fn spec_rename_type(s: Seq<u8>) -> Seq<u8>
    decreases s.len(),
{
    if s.len() == 0 {
        Seq::empty()
    } else if s.len() >= 7 && s.subrange(0, 7) == type_key() {
        type_key_renamed() + spec_rename_type(s.skip(7))
    } else {
        seq![s[0]] + spec_rename_type(s.skip(1))
    }
}

/// Rewrites every `"type":` in the body to `"type_":`, byte-exactly, so
/// that the decoded struct carries the field as `type_`.
pub fn rename_type_field(s: &str) -> (r: Vec<u8>)
    ensures
        r@ == spec_rename_type(encode_utf8(s@)),
{
    let b = s.as_bytes_vec();
    let mut out: Vec<u8> = Vec::new();
    let mut i: usize = 0;
    proof {
        assert(b@.skip(0) =~= b@);
        assert(out@ + spec_rename_type(b@) =~= spec_rename_type(b@));
    }
    while i < b.len()
        invariant
            i <= b@.len(),
            spec_rename_type(b@) == out@ + spec_rename_type(b@.skip(i as int)),
        decreases b@.len() - i,
    {
        let ghost rem = b@.skip(i as int);
        let ghost out0 = out@;
        if b.len() - i >= 7 && b[i] == 0x22 && b[i + 1] == 0x74 && b[i + 2] == 0x79 && b[i + 3]
            == 0x70 && b[i + 4] == 0x65 && b[i + 5] == 0x22 && b[i + 6] == 0x3a {
            out.push(0x22);
            out.push(0x74);
            out.push(0x79);
            out.push(0x70);
            out.push(0x65);
            out.push(0x5f);
            out.push(0x22);
            out.push(0x3a);
            proof {
                assert(rem.subrange(0, 7) =~= type_key());
                assert(rem.skip(7) =~= b@.skip(i + 7));
                assert(spec_rename_type(rem) == type_key_renamed() + spec_rename_type(
                    b@.skip(i + 7),
                ));
                assert(out@ =~= out0 + type_key_renamed());
                assert(out@ + spec_rename_type(b@.skip(i + 7)) =~= out0 + spec_rename_type(rem));
            }
            i = i + 7;
        } else {
            out.push(b[i]);
            proof {
                assert(rem[0] == b@[i as int]);
                if rem.len() >= 7 {
                    assert(rem.subrange(0, 7) != type_key()) by {
                        if rem.subrange(0, 7) == type_key() {
                            assert(rem[0] == 0x22 && rem[1] == 0x74 && rem[2] == 0x79 && rem[3]
                                == 0x70 && rem[4] == 0x65 && rem[5] == 0x22 && rem[6] == 0x3a);
                            assert(rem[1] == b@[i + 1] && rem[2] == b@[i + 2] && rem[3] == b@[i + 3]
                                && rem[4] == b@[i + 4] && rem[5] == b@[i + 5]);
                            assert(rem[6] == b@[i + 6]);
                        }
                    }
                }
                assert(rem.skip(1) =~= b@.skip(i + 1));
                assert(spec_rename_type(rem) == seq![rem[0]] + spec_rename_type(b@.skip(i + 1)));
                assert(out@ + spec_rename_type(b@.skip(i + 1)) =~= out0 + spec_rename_type(rem));
            }
            i = i + 1;
        }
    }
    proof {
        assert(b@.skip(b@.len() as int) =~= Seq::<u8>::empty());
        assert(out@ + spec_rename_type(Seq::<u8>::empty()) =~= out@);
        assert(b@.skip(0) =~= b@);
    }
    out
}

} // verus!
