//! The protocol's wire names: every JSON key, discriminant, and
//! enumeration value the controller speaks, as byte strings, with the
//! facts the codec proofs need of them.

use vstd::prelude::*;
use crate::json::{str_byte_ok, str_ok};

verus! {

/// `"Configuration"`
pub open spec fn k_configuration() -> Seq<u8> {
    seq![67u8, 111, 110, 102, 105, 103, 117, 114, 97, 116, 105, 111, 110]
}

pub fn key_configuration() -> (v: Vec<u8>)
    ensures
        v@ == k_configuration(),
{
    let mut v: Vec<u8> = Vec::new();
    v.push(67);
    v.push(111);
    v.push(110);
    v.push(102);
    v.push(105);
    v.push(103);
    v.push(117);
    v.push(114);
    v.push(97);
    v.push(116);
    v.push(105);
    v.push(111);
    v.push(110);
    proof {
        assert(v@ =~= k_configuration());
    }
    v
}

pub proof fn k_configuration_ok()
    ensures
        str_ok(k_configuration()),
        k_configuration().len() == 13,
{
    let s = k_configuration();
    assert forall|i: int| 0 <= i < s.len() implies str_byte_ok(s[i]) by {
        if i == 0 {
            assert(s[0] == 67);
        } else if i == 1 {
            assert(s[1] == 111);
        } else if i == 2 {
            assert(s[2] == 110);
        } else if i == 3 {
            assert(s[3] == 102);
        } else if i == 4 {
            assert(s[4] == 105);
        } else if i == 5 {
            assert(s[5] == 103);
        } else if i == 6 {
            assert(s[6] == 117);
        } else if i == 7 {
            assert(s[7] == 114);
        } else if i == 8 {
            assert(s[8] == 97);
        } else if i == 9 {
            assert(s[9] == 116);
        } else if i == 10 {
            assert(s[10] == 105);
        } else if i == 11 {
            assert(s[11] == 111);
        } else if i == 12 {
            assert(s[12] == 110);
        } else {
        }
    }
}

/// `"Count"`
pub open spec fn k_count() -> Seq<u8> {
    seq![67u8, 111, 117, 110, 116]
}

pub fn key_count() -> (v: Vec<u8>)
    ensures
        v@ == k_count(),
{
    let mut v: Vec<u8> = Vec::new();
    v.push(67);
    v.push(111);
    v.push(117);
    v.push(110);
    v.push(116);
    proof {
        assert(v@ =~= k_count());
    }
    v
}

pub proof fn k_count_ok()
    ensures
        str_ok(k_count()),
        k_count().len() == 5,
{
    let s = k_count();
    assert forall|i: int| 0 <= i < s.len() implies str_byte_ok(s[i]) by {
        if i == 0 {
            assert(s[0] == 67);
        } else if i == 1 {
            assert(s[1] == 111);
        } else if i == 2 {
            assert(s[2] == 117);
        } else if i == 3 {
            assert(s[3] == 110);
        } else if i == 4 {
            assert(s[4] == 116);
        } else {
        }
    }
}

/// `"P"`
pub open spec fn k_cp() -> Seq<u8> {
    seq![80u8]
}

pub fn key_cp() -> (v: Vec<u8>)
    ensures
        v@ == k_cp(),
{
    let mut v: Vec<u8> = Vec::new();
    v.push(80);
    proof {
        assert(v@ =~= k_cp());
    }
    v
}

pub proof fn k_cp_ok()
    ensures
        str_ok(k_cp()),
        k_cp().len() == 1,
{
    let s = k_cp();
    assert forall|i: int| 0 <= i < s.len() implies str_byte_ok(s[i]) by {
        if i == 0 {
            assert(s[0] == 80);
        } else {
        }
    }
}

/// `"R"`
pub open spec fn k_cr() -> Seq<u8> {
    seq![82u8]
}

pub fn key_cr() -> (v: Vec<u8>)
    ensures
        v@ == k_cr(),
{
    let mut v: Vec<u8> = Vec::new();
    v.push(82);
    proof {
        assert(v@ =~= k_cr());
    }
    v
}

pub proof fn k_cr_ok()
    ensures
        str_ok(k_cr()),
        k_cr().len() == 1,
{
    let s = k_cr();
    assert forall|i: int| 0 <= i < s.len() implies str_byte_ok(s[i]) by {
        if i == 0 {
            assert(s[0] == 82);
        } else {
        }
    }
}

/// `"W"`
pub open spec fn k_cw() -> Seq<u8> {
    seq![87u8]
}

pub fn key_cw() -> (v: Vec<u8>)
    ensures
        v@ == k_cw(),
{
    let mut v: Vec<u8> = Vec::new();
    v.push(87);
    proof {
        assert(v@ =~= k_cw());
    }
    v
}

pub proof fn k_cw_ok()
    ensures
        str_ok(k_cw()),
        k_cw().len() == 1,
{
    let s = k_cw();
    assert forall|i: int| 0 <= i < s.len() implies str_byte_ok(s[i]) by {
        if i == 0 {
            assert(s[0] == 87);
        } else {
        }
    }
}

/// `"X"`
pub open spec fn k_cx() -> Seq<u8> {
    seq![88u8]
}

pub fn key_cx() -> (v: Vec<u8>)
    ensures
        v@ == k_cx(),
{
    let mut v: Vec<u8> = Vec::new();
    v.push(88);
    proof {
        assert(v@ =~= k_cx());
    }
    v
}

pub proof fn k_cx_ok()
    ensures
        str_ok(k_cx()),
        k_cx().len() == 1,
{
    let s = k_cx();
    assert forall|i: int| 0 <= i < s.len() implies str_byte_ok(s[i]) by {
        if i == 0 {
            assert(s[0] == 88);
        } else {
        }
    }
}

/// `"Y"`
pub open spec fn k_cy() -> Seq<u8> {
    seq![89u8]
}

pub fn key_cy() -> (v: Vec<u8>)
    ensures
        v@ == k_cy(),
{
    let mut v: Vec<u8> = Vec::new();
    v.push(89);
    proof {
        assert(v@ =~= k_cy());
    }
    v
}

pub proof fn k_cy_ok()
    ensures
        str_ok(k_cy()),
        k_cy().len() == 1,
{
    let s = k_cy();
    assert forall|i: int| 0 <= i < s.len() implies str_byte_ok(s[i]) by {
        if i == 0 {
            assert(s[0] == 89);
        } else {
        }
    }
}

/// `"Z"`
pub open spec fn k_cz() -> Seq<u8> {
    seq![90u8]
}

pub fn key_cz() -> (v: Vec<u8>)
    ensures
        v@ == k_cz(),
{
    let mut v: Vec<u8> = Vec::new();
    v.push(90);
    proof {
        assert(v@ =~= k_cz());
    }
    v
}

pub proof fn k_cz_ok()
    ensures
        str_ok(k_cz()),
        k_cz().len() == 1,
{
    let s = k_cz();
    assert forall|i: int| 0 <= i < s.len() implies str_byte_ok(s[i]) by {
        if i == 0 {
            assert(s[0] == 90);
        } else {
        }
    }
}

/// `"ErrorData"`
pub open spec fn k_error_data() -> Seq<u8> {
    seq![69u8, 114, 114, 111, 114, 68, 97, 116, 97]
}

pub fn key_error_data() -> (v: Vec<u8>)
    ensures
        v@ == k_error_data(),
{
    let mut v: Vec<u8> = Vec::new();
    v.push(69);
    v.push(114);
    v.push(114);
    v.push(111);
    v.push(114);
    v.push(68);
    v.push(97);
    v.push(116);
    v.push(97);
    proof {
        assert(v@ =~= k_error_data());
    }
    v
}

pub proof fn k_error_data_ok()
    ensures
        str_ok(k_error_data()),
        k_error_data().len() == 9,
{
    let s = k_error_data();
    assert forall|i: int| 0 <= i < s.len() implies str_byte_ok(s[i]) by {
        if i == 0 {
            assert(s[0] == 69);
        } else if i == 1 {
            assert(s[1] == 114);
        } else if i == 2 {
            assert(s[2] == 114);
        } else if i == 3 {
            assert(s[3] == 111);
        } else if i == 4 {
            assert(s[4] == 114);
        } else if i == 5 {
            assert(s[5] == 68);
        } else if i == 6 {
            assert(s[6] == 97);
        } else if i == 7 {
            assert(s[7] == 116);
        } else if i == 8 {
            assert(s[8] == 97);
        } else {
        }
    }
}

/// `"ErrorID"`
pub open spec fn k_error_id() -> Seq<u8> {
    seq![69u8, 114, 114, 111, 114, 73, 68]
}

pub fn key_error_id() -> (v: Vec<u8>)
    ensures
        v@ == k_error_id(),
{
    let mut v: Vec<u8> = Vec::new();
    v.push(69);
    v.push(114);
    v.push(114);
    v.push(111);
    v.push(114);
    v.push(73);
    v.push(68);
    proof {
        assert(v@ =~= k_error_id());
    }
    v
}

pub proof fn k_error_id_ok()
    ensures
        str_ok(k_error_id()),
        k_error_id().len() == 7,
{
    let s = k_error_id();
    assert forall|i: int| 0 <= i < s.len() implies str_byte_ok(s[i]) by {
        if i == 0 {
            assert(s[0] == 69);
        } else if i == 1 {
            assert(s[1] == 114);
        } else if i == 2 {
            assert(s[2] == 114);
        } else if i == 3 {
            assert(s[3] == 111);
        } else if i == 4 {
            assert(s[4] == 114);
        } else if i == 5 {
            assert(s[5] == 73);
        } else if i == 6 {
            assert(s[6] == 68);
        } else {
        }
    }
}

/// `"Ext1"`
pub open spec fn k_ext1() -> Seq<u8> {
    seq![69u8, 120, 116, 49]
}

pub fn key_ext1() -> (v: Vec<u8>)
    ensures
        v@ == k_ext1(),
{
    let mut v: Vec<u8> = Vec::new();
    v.push(69);
    v.push(120);
    v.push(116);
    v.push(49);
    proof {
        assert(v@ =~= k_ext1());
    }
    v
}

pub proof fn k_ext1_ok()
    ensures
        str_ok(k_ext1()),
        k_ext1().len() == 4,
{
    let s = k_ext1();
    assert forall|i: int| 0 <= i < s.len() implies str_byte_ok(s[i]) by {
        if i == 0 {
            assert(s[0] == 69);
        } else if i == 1 {
            assert(s[1] == 120);
        } else if i == 2 {
            assert(s[2] == 116);
        } else if i == 3 {
            assert(s[3] == 49);
        } else {
        }
    }
}

/// `"Ext2"`
pub open spec fn k_ext2() -> Seq<u8> {
    seq![69u8, 120, 116, 50]
}

pub fn key_ext2() -> (v: Vec<u8>)
    ensures
        v@ == k_ext2(),
{
    let mut v: Vec<u8> = Vec::new();
    v.push(69);
    v.push(120);
    v.push(116);
    v.push(50);
    proof {
        assert(v@ =~= k_ext2());
    }
    v
}

pub proof fn k_ext2_ok()
    ensures
        str_ok(k_ext2()),
        k_ext2().len() == 4,
{
    let s = k_ext2();
    assert forall|i: int| 0 <= i < s.len() implies str_byte_ok(s[i]) by {
        if i == 0 {
            assert(s[0] == 69);
        } else if i == 1 {
            assert(s[1] == 120);
        } else if i == 2 {
            assert(s[2] == 116);
        } else if i == 3 {
            assert(s[3] == 50);
        } else {
        }
    }
}

/// `"Ext3"`
pub open spec fn k_ext3() -> Seq<u8> {
    seq![69u8, 120, 116, 51]
}

pub fn key_ext3() -> (v: Vec<u8>)
    ensures
        v@ == k_ext3(),
{
    let mut v: Vec<u8> = Vec::new();
    v.push(69);
    v.push(120);
    v.push(116);
    v.push(51);
    proof {
        assert(v@ =~= k_ext3());
    }
    v
}

pub proof fn k_ext3_ok()
    ensures
        str_ok(k_ext3()),
        k_ext3().len() == 4,
{
    let s = k_ext3();
    assert forall|i: int| 0 <= i < s.len() implies str_byte_ok(s[i]) by {
        if i == 0 {
            assert(s[0] == 69);
        } else if i == 1 {
            assert(s[1] == 120);
        } else if i == 2 {
            assert(s[2] == 116);
        } else if i == 3 {
            assert(s[3] == 51);
        } else {
        }
    }
}

/// `"p"`
pub open spec fn k_fp() -> Seq<u8> {
    seq![112u8]
}

pub fn key_fp() -> (v: Vec<u8>)
    ensures
        v@ == k_fp(),
{
    let mut v: Vec<u8> = Vec::new();
    v.push(112);
    proof {
        assert(v@ =~= k_fp());
    }
    v
}

pub proof fn k_fp_ok()
    ensures
        str_ok(k_fp()),
        k_fp().len() == 1,
{
    let s = k_fp();
    assert forall|i: int| 0 <= i < s.len() implies str_byte_ok(s[i]) by {
        if i == 0 {
            assert(s[0] == 112);
        } else {
        }
    }
}

/// `"r"`
pub open spec fn k_fr() -> Seq<u8> {
    seq![114u8]
}

pub fn key_fr() -> (v: Vec<u8>)
    ensures
        v@ == k_fr(),
{
    let mut v: Vec<u8> = Vec::new();
    v.push(114);
    proof {
        assert(v@ =~= k_fr());
    }
    v
}

pub proof fn k_fr_ok()
    ensures
        str_ok(k_fr()),
        k_fr().len() == 1,
{
    let s = k_fr();
    assert forall|i: int| 0 <= i < s.len() implies str_byte_ok(s[i]) by {
        if i == 0 {
            assert(s[0] == 114);
        } else {
        }
    }
}

/// `"Frame"`
pub open spec fn k_frame() -> Seq<u8> {
    seq![70u8, 114, 97, 109, 101]
}

pub fn key_frame() -> (v: Vec<u8>)
    ensures
        v@ == k_frame(),
{
    let mut v: Vec<u8> = Vec::new();
    v.push(70);
    v.push(114);
    v.push(97);
    v.push(109);
    v.push(101);
    proof {
        assert(v@ =~= k_frame());
    }
    v
}

pub proof fn k_frame_ok()
    ensures
        str_ok(k_frame()),
        k_frame().len() == 5,
{
    let s = k_frame();
    assert forall|i: int| 0 <= i < s.len() implies str_byte_ok(s[i]) by {
        if i == 0 {
            assert(s[0] == 70);
        } else if i == 1 {
            assert(s[1] == 114);
        } else if i == 2 {
            assert(s[2] == 97);
        } else if i == 3 {
            assert(s[3] == 109);
        } else if i == 4 {
            assert(s[4] == 101);
        } else {
        }
    }
}

/// `"FrameNumber"`
pub open spec fn k_frame_number() -> Seq<u8> {
    seq![70u8, 114, 97, 109, 101, 78, 117, 109, 98, 101, 114]
}

pub fn key_frame_number() -> (v: Vec<u8>)
    ensures
        v@ == k_frame_number(),
{
    let mut v: Vec<u8> = Vec::new();
    v.push(70);
    v.push(114);
    v.push(97);
    v.push(109);
    v.push(101);
    v.push(78);
    v.push(117);
    v.push(109);
    v.push(98);
    v.push(101);
    v.push(114);
    proof {
        assert(v@ =~= k_frame_number());
    }
    v
}

pub proof fn k_frame_number_ok()
    ensures
        str_ok(k_frame_number()),
        k_frame_number().len() == 11,
{
    let s = k_frame_number();
    assert forall|i: int| 0 <= i < s.len() implies str_byte_ok(s[i]) by {
        if i == 0 {
            assert(s[0] == 70);
        } else if i == 1 {
            assert(s[1] == 114);
        } else if i == 2 {
            assert(s[2] == 97);
        } else if i == 3 {
            assert(s[3] == 109);
        } else if i == 4 {
            assert(s[4] == 101);
        } else if i == 5 {
            assert(s[5] == 78);
        } else if i == 6 {
            assert(s[6] == 117);
        } else if i == 7 {
            assert(s[7] == 109);
        } else if i == 8 {
            assert(s[8] == 98);
        } else if i == 9 {
            assert(s[9] == 101);
        } else if i == 10 {
            assert(s[10] == 114);
        } else {
        }
    }
}

/// `"Front"`
pub open spec fn k_front() -> Seq<u8> {
    seq![70u8, 114, 111, 110, 116]
}

pub fn key_front() -> (v: Vec<u8>)
    ensures
        v@ == k_front(),
{
    let mut v: Vec<u8> = Vec::new();
    v.push(70);
    v.push(114);
    v.push(111);
    v.push(110);
    v.push(116);
    proof {
        assert(v@ =~= k_front());
    }
    v
}

pub proof fn k_front_ok()
    ensures
        str_ok(k_front()),
        k_front().len() == 5,
{
    let s = k_front();
    assert forall|i: int| 0 <= i < s.len() implies str_byte_ok(s[i]) by {
        if i == 0 {
            assert(s[0] == 70);
        } else if i == 1 {
            assert(s[1] == 114);
        } else if i == 2 {
            assert(s[2] == 111);
        } else if i == 3 {
            assert(s[3] == 110);
        } else if i == 4 {
            assert(s[4] == 116);
        } else {
        }
    }
}

/// `"w"`
pub open spec fn k_fw() -> Seq<u8> {
    seq![119u8]
}

pub fn key_fw() -> (v: Vec<u8>)
    ensures
        v@ == k_fw(),
{
    let mut v: Vec<u8> = Vec::new();
    v.push(119);
    proof {
        assert(v@ =~= k_fw());
    }
    v
}

pub proof fn k_fw_ok()
    ensures
        str_ok(k_fw()),
        k_fw().len() == 1,
{
    let s = k_fw();
    assert forall|i: int| 0 <= i < s.len() implies str_byte_ok(s[i]) by {
        if i == 0 {
            assert(s[0] == 119);
        } else {
        }
    }
}

/// `"x"`
pub open spec fn k_fx() -> Seq<u8> {
    seq![120u8]
}

pub fn key_fx() -> (v: Vec<u8>)
    ensures
        v@ == k_fx(),
{
    let mut v: Vec<u8> = Vec::new();
    v.push(120);
    proof {
        assert(v@ =~= k_fx());
    }
    v
}

pub proof fn k_fx_ok()
    ensures
        str_ok(k_fx()),
        k_fx().len() == 1,
{
    let s = k_fx();
    assert forall|i: int| 0 <= i < s.len() implies str_byte_ok(s[i]) by {
        if i == 0 {
            assert(s[0] == 120);
        } else {
        }
    }
}

/// `"y"`
pub open spec fn k_fy() -> Seq<u8> {
    seq![121u8]
}

pub fn key_fy() -> (v: Vec<u8>)
    ensures
        v@ == k_fy(),
{
    let mut v: Vec<u8> = Vec::new();
    v.push(121);
    proof {
        assert(v@ =~= k_fy());
    }
    v
}

pub proof fn k_fy_ok()
    ensures
        str_ok(k_fy()),
        k_fy().len() == 1,
{
    let s = k_fy();
    assert forall|i: int| 0 <= i < s.len() implies str_byte_ok(s[i]) by {
        if i == 0 {
            assert(s[0] == 121);
        } else {
        }
    }
}

/// `"z"`
pub open spec fn k_fz() -> Seq<u8> {
    seq![122u8]
}

pub fn key_fz() -> (v: Vec<u8>)
    ensures
        v@ == k_fz(),
{
    let mut v: Vec<u8> = Vec::new();
    v.push(122);
    proof {
        assert(v@ =~= k_fz());
    }
    v
}

pub proof fn k_fz_ok()
    ensures
        str_ok(k_fz()),
        k_fz().len() == 1,
{
    let s = k_fz();
    assert forall|i: int| 0 <= i < s.len() implies str_byte_ok(s[i]) by {
        if i == 0 {
            assert(s[0] == 122);
        } else {
        }
    }
}

/// `"Glip"`
pub open spec fn k_glip() -> Seq<u8> {
    seq![71u8, 108, 105, 112]
}

pub fn key_glip() -> (v: Vec<u8>)
    ensures
        v@ == k_glip(),
{
    let mut v: Vec<u8> = Vec::new();
    v.push(71);
    v.push(108);
    v.push(105);
    v.push(112);
    proof {
        assert(v@ =~= k_glip());
    }
    v
}

pub proof fn k_glip_ok()
    ensures
        str_ok(k_glip()),
        k_glip().len() == 4,
{
    let s = k_glip();
    assert forall|i: int| 0 <= i < s.len() implies str_byte_ok(s[i]) by {
        if i == 0 {
            assert(s[0] == 71);
        } else if i == 1 {
            assert(s[1] == 108);
        } else if i == 2 {
            assert(s[2] == 105);
        } else if i == 3 {
            assert(s[3] == 112);
        } else {
        }
    }
}

/// `"Group"`
pub open spec fn k_group() -> Seq<u8> {
    seq![71u8, 114, 111, 117, 112]
}

pub fn key_group() -> (v: Vec<u8>)
    ensures
        v@ == k_group(),
{
    let mut v: Vec<u8> = Vec::new();
    v.push(71);
    v.push(114);
    v.push(111);
    v.push(117);
    v.push(112);
    proof {
        assert(v@ =~= k_group());
    }
    v
}

pub proof fn k_group_ok()
    ensures
        str_ok(k_group()),
        k_group().len() == 5,
{
    let s = k_group();
    assert forall|i: int| 0 <= i < s.len() implies str_byte_ok(s[i]) by {
        if i == 0 {
            assert(s[0] == 71);
        } else if i == 1 {
            assert(s[1] == 114);
        } else if i == 2 {
            assert(s[2] == 111);
        } else if i == 3 {
            assert(s[3] == 117);
        } else if i == 4 {
            assert(s[4] == 112);
        } else {
        }
    }
}

/// `"GroupMask"`
pub open spec fn k_group_mask() -> Seq<u8> {
    seq![71u8, 114, 111, 117, 112, 77, 97, 115, 107]
}

pub fn key_group_mask() -> (v: Vec<u8>)
    ensures
        v@ == k_group_mask(),
{
    let mut v: Vec<u8> = Vec::new();
    v.push(71);
    v.push(114);
    v.push(111);
    v.push(117);
    v.push(112);
    v.push(77);
    v.push(97);
    v.push(115);
    v.push(107);
    proof {
        assert(v@ =~= k_group_mask());
    }
    v
}

pub proof fn k_group_mask_ok()
    ensures
        str_ok(k_group_mask()),
        k_group_mask().len() == 9,
{
    let s = k_group_mask();
    assert forall|i: int| 0 <= i < s.len() implies str_byte_ok(s[i]) by {
        if i == 0 {
            assert(s[0] == 71);
        } else if i == 1 {
            assert(s[1] == 114);
        } else if i == 2 {
            assert(s[2] == 111);
        } else if i == 3 {
            assert(s[3] == 117);
        } else if i == 4 {
            assert(s[4] == 112);
        } else if i == 5 {
            assert(s[5] == 77);
        } else if i == 6 {
            assert(s[6] == 97);
        } else if i == 7 {
            assert(s[7] == 115);
        } else if i == 8 {
            assert(s[8] == 107);
        } else {
        }
    }
}

/// `"j1"`
pub open spec fn k_j1() -> Seq<u8> {
    seq![106u8, 49]
}

pub fn key_j1() -> (v: Vec<u8>)
    ensures
        v@ == k_j1(),
{
    let mut v: Vec<u8> = Vec::new();
    v.push(106);
    v.push(49);
    proof {
        assert(v@ =~= k_j1());
    }
    v
}

pub proof fn k_j1_ok()
    ensures
        str_ok(k_j1()),
        k_j1().len() == 2,
{
    let s = k_j1();
    assert forall|i: int| 0 <= i < s.len() implies str_byte_ok(s[i]) by {
        if i == 0 {
            assert(s[0] == 106);
        } else if i == 1 {
            assert(s[1] == 49);
        } else {
        }
    }
}

/// `"j2"`
pub open spec fn k_j2() -> Seq<u8> {
    seq![106u8, 50]
}

pub fn key_j2() -> (v: Vec<u8>)
    ensures
        v@ == k_j2(),
{
    let mut v: Vec<u8> = Vec::new();
    v.push(106);
    v.push(50);
    proof {
        assert(v@ =~= k_j2());
    }
    v
}

pub proof fn k_j2_ok()
    ensures
        str_ok(k_j2()),
        k_j2().len() == 2,
{
    let s = k_j2();
    assert forall|i: int| 0 <= i < s.len() implies str_byte_ok(s[i]) by {
        if i == 0 {
            assert(s[0] == 106);
        } else if i == 1 {
            assert(s[1] == 50);
        } else {
        }
    }
}

/// `"j3"`
pub open spec fn k_j3() -> Seq<u8> {
    seq![106u8, 51]
}

pub fn key_j3() -> (v: Vec<u8>)
    ensures
        v@ == k_j3(),
{
    let mut v: Vec<u8> = Vec::new();
    v.push(106);
    v.push(51);
    proof {
        assert(v@ =~= k_j3());
    }
    v
}

pub proof fn k_j3_ok()
    ensures
        str_ok(k_j3()),
        k_j3().len() == 2,
{
    let s = k_j3();
    assert forall|i: int| 0 <= i < s.len() implies str_byte_ok(s[i]) by {
        if i == 0 {
            assert(s[0] == 106);
        } else if i == 1 {
            assert(s[1] == 51);
        } else {
        }
    }
}

/// `"j4"`
pub open spec fn k_j4() -> Seq<u8> {
    seq![106u8, 52]
}

pub fn key_j4() -> (v: Vec<u8>)
    ensures
        v@ == k_j4(),
{
    let mut v: Vec<u8> = Vec::new();
    v.push(106);
    v.push(52);
    proof {
        assert(v@ =~= k_j4());
    }
    v
}

pub proof fn k_j4_ok()
    ensures
        str_ok(k_j4()),
        k_j4().len() == 2,
{
    let s = k_j4();
    assert forall|i: int| 0 <= i < s.len() implies str_byte_ok(s[i]) by {
        if i == 0 {
            assert(s[0] == 106);
        } else if i == 1 {
            assert(s[1] == 52);
        } else {
        }
    }
}

/// `"j5"`
pub open spec fn k_j5() -> Seq<u8> {
    seq![106u8, 53]
}

pub fn key_j5() -> (v: Vec<u8>)
    ensures
        v@ == k_j5(),
{
    let mut v: Vec<u8> = Vec::new();
    v.push(106);
    v.push(53);
    proof {
        assert(v@ =~= k_j5());
    }
    v
}

pub proof fn k_j5_ok()
    ensures
        str_ok(k_j5()),
        k_j5().len() == 2,
{
    let s = k_j5();
    assert forall|i: int| 0 <= i < s.len() implies str_byte_ok(s[i]) by {
        if i == 0 {
            assert(s[0] == 106);
        } else if i == 1 {
            assert(s[1] == 53);
        } else {
        }
    }
}

/// `"j6"`
pub open spec fn k_j6() -> Seq<u8> {
    seq![106u8, 54]
}

pub fn key_j6() -> (v: Vec<u8>)
    ensures
        v@ == k_j6(),
{
    let mut v: Vec<u8> = Vec::new();
    v.push(106);
    v.push(54);
    proof {
        assert(v@ =~= k_j6());
    }
    v
}

pub proof fn k_j6_ok()
    ensures
        str_ok(k_j6()),
        k_j6().len() == 2,
{
    let s = k_j6();
    assert forall|i: int| 0 <= i < s.len() implies str_byte_ok(s[i]) by {
        if i == 0 {
            assert(s[0] == 106);
        } else if i == 1 {
            assert(s[1] == 54);
        } else {
        }
    }
}

/// `"j7"`
pub open spec fn k_j7() -> Seq<u8> {
    seq![106u8, 55]
}

pub fn key_j7() -> (v: Vec<u8>)
    ensures
        v@ == k_j7(),
{
    let mut v: Vec<u8> = Vec::new();
    v.push(106);
    v.push(55);
    proof {
        assert(v@ =~= k_j7());
    }
    v
}

pub proof fn k_j7_ok()
    ensures
        str_ok(k_j7()),
        k_j7().len() == 2,
{
    let s = k_j7();
    assert forall|i: int| 0 <= i < s.len() implies str_byte_ok(s[i]) by {
        if i == 0 {
            assert(s[0] == 106);
        } else if i == 1 {
            assert(s[1] == 55);
        } else {
        }
    }
}

/// `"j8"`
pub open spec fn k_j8() -> Seq<u8> {
    seq![106u8, 56]
}

pub fn key_j8() -> (v: Vec<u8>)
    ensures
        v@ == k_j8(),
{
    let mut v: Vec<u8> = Vec::new();
    v.push(106);
    v.push(56);
    proof {
        assert(v@ =~= k_j8());
    }
    v
}

pub proof fn k_j8_ok()
    ensures
        str_ok(k_j8()),
        k_j8().len() == 2,
{
    let s = k_j8();
    assert forall|i: int| 0 <= i < s.len() implies str_byte_ok(s[i]) by {
        if i == 0 {
            assert(s[0] == 106);
        } else if i == 1 {
            assert(s[1] == 56);
        } else {
        }
    }
}

/// `"j9"`
pub open spec fn k_j9() -> Seq<u8> {
    seq![106u8, 57]
}

pub fn key_j9() -> (v: Vec<u8>)
    ensures
        v@ == k_j9(),
{
    let mut v: Vec<u8> = Vec::new();
    v.push(106);
    v.push(57);
    proof {
        assert(v@ =~= k_j9());
    }
    v
}

pub proof fn k_j9_ok()
    ensures
        str_ok(k_j9()),
        k_j9().len() == 2,
{
    let s = k_j9();
    assert forall|i: int| 0 <= i < s.len() implies str_byte_ok(s[i]) by {
        if i == 0 {
            assert(s[0] == 106);
        } else if i == 1 {
            assert(s[1] == 57);
        } else {
        }
    }
}

/// `"JointAngles"`
pub open spec fn k_joint_angles() -> Seq<u8> {
    seq![74u8, 111, 105, 110, 116, 65, 110, 103, 108, 101, 115]
}

pub fn key_joint_angles() -> (v: Vec<u8>)
    ensures
        v@ == k_joint_angles(),
{
    let mut v: Vec<u8> = Vec::new();
    v.push(74);
    v.push(111);
    v.push(105);
    v.push(110);
    v.push(116);
    v.push(65);
    v.push(110);
    v.push(103);
    v.push(108);
    v.push(101);
    v.push(115);
    proof {
        assert(v@ =~= k_joint_angles());
    }
    v
}

pub proof fn k_joint_angles_ok()
    ensures
        str_ok(k_joint_angles()),
        k_joint_angles().len() == 11,
{
    let s = k_joint_angles();
    assert forall|i: int| 0 <= i < s.len() implies str_byte_ok(s[i]) by {
        if i == 0 {
            assert(s[0] == 74);
        } else if i == 1 {
            assert(s[1] == 111);
        } else if i == 2 {
            assert(s[2] == 105);
        } else if i == 3 {
            assert(s[3] == 110);
        } else if i == 4 {
            assert(s[4] == 116);
        } else if i == 5 {
            assert(s[5] == 65);
        } else if i == 6 {
            assert(s[6] == 110);
        } else if i == 7 {
            assert(s[7] == 103);
        } else if i == 8 {
            assert(s[8] == 108);
        } else if i == 9 {
            assert(s[9] == 101);
        } else if i == 10 {
            assert(s[10] == 115);
        } else {
        }
    }
}

/// `"Left"`
pub open spec fn k_left() -> Seq<u8> {
    seq![76u8, 101, 102, 116]
}

pub fn key_left() -> (v: Vec<u8>)
    ensures
        v@ == k_left(),
{
    let mut v: Vec<u8> = Vec::new();
    v.push(76);
    v.push(101);
    v.push(102);
    v.push(116);
    proof {
        assert(v@ =~= k_left());
    }
    v
}

pub proof fn k_left_ok()
    ensures
        str_ok(k_left()),
        k_left().len() == 4,
{
    let s = k_left();
    assert forall|i: int| 0 <= i < s.len() implies str_byte_ok(s[i]) by {
        if i == 0 {
            assert(s[0] == 76);
        } else if i == 1 {
            assert(s[1] == 101);
        } else if i == 2 {
            assert(s[2] == 102);
        } else if i == 3 {
            assert(s[3] == 116);
        } else {
        }
    }
}

/// `"MajorVersion"`
pub open spec fn k_major_version() -> Seq<u8> {
    seq![77u8, 97, 106, 111, 114, 86, 101, 114, 115, 105, 111, 110]
}

pub fn key_major_version() -> (v: Vec<u8>)
    ensures
        v@ == k_major_version(),
{
    let mut v: Vec<u8> = Vec::new();
    v.push(77);
    v.push(97);
    v.push(106);
    v.push(111);
    v.push(114);
    v.push(86);
    v.push(101);
    v.push(114);
    v.push(115);
    v.push(105);
    v.push(111);
    v.push(110);
    proof {
        assert(v@ =~= k_major_version());
    }
    v
}

pub proof fn k_major_version_ok()
    ensures
        str_ok(k_major_version()),
        k_major_version().len() == 12,
{
    let s = k_major_version();
    assert forall|i: int| 0 <= i < s.len() implies str_byte_ok(s[i]) by {
        if i == 0 {
            assert(s[0] == 77);
        } else if i == 1 {
            assert(s[1] == 97);
        } else if i == 2 {
            assert(s[2] == 106);
        } else if i == 3 {
            assert(s[3] == 111);
        } else if i == 4 {
            assert(s[4] == 114);
        } else if i == 5 {
            assert(s[5] == 86);
        } else if i == 6 {
            assert(s[6] == 101);
        } else if i == 7 {
            assert(s[7] == 114);
        } else if i == 8 {
            assert(s[8] == 115);
        } else if i == 9 {
            assert(s[9] == 105);
        } else if i == 10 {
            assert(s[10] == 111);
        } else if i == 11 {
            assert(s[11] == 110);
        } else {
        }
    }
}

/// `"MinorVersion"`
pub open spec fn k_minor_version() -> Seq<u8> {
    seq![77u8, 105, 110, 111, 114, 86, 101, 114, 115, 105, 111, 110]
}

pub fn key_minor_version() -> (v: Vec<u8>)
    ensures
        v@ == k_minor_version(),
{
    let mut v: Vec<u8> = Vec::new();
    v.push(77);
    v.push(105);
    v.push(110);
    v.push(111);
    v.push(114);
    v.push(86);
    v.push(101);
    v.push(114);
    v.push(115);
    v.push(105);
    v.push(111);
    v.push(110);
    proof {
        assert(v@ =~= k_minor_version());
    }
    v
}

pub proof fn k_minor_version_ok()
    ensures
        str_ok(k_minor_version()),
        k_minor_version().len() == 12,
{
    let s = k_minor_version();
    assert forall|i: int| 0 <= i < s.len() implies str_byte_ok(s[i]) by {
        if i == 0 {
            assert(s[0] == 77);
        } else if i == 1 {
            assert(s[1] == 105);
        } else if i == 2 {
            assert(s[2] == 110);
        } else if i == 3 {
            assert(s[3] == 111);
        } else if i == 4 {
            assert(s[4] == 114);
        } else if i == 5 {
            assert(s[5] == 86);
        } else if i == 6 {
            assert(s[6] == 101);
        } else if i == 7 {
            assert(s[7] == 114);
        } else if i == 8 {
            assert(s[8] == 115);
        } else if i == 9 {
            assert(s[9] == 105);
        } else if i == 10 {
            assert(s[10] == 111);
        } else if i == 11 {
            assert(s[11] == 110);
        } else {
        }
    }
}

/// `"NumberUFrame"`
pub open spec fn k_number_uframe() -> Seq<u8> {
    seq![78u8, 117, 109, 98, 101, 114, 85, 70, 114, 97, 109, 101]
}

pub fn key_number_uframe() -> (v: Vec<u8>)
    ensures
        v@ == k_number_uframe(),
{
    let mut v: Vec<u8> = Vec::new();
    v.push(78);
    v.push(117);
    v.push(109);
    v.push(98);
    v.push(101);
    v.push(114);
    v.push(85);
    v.push(70);
    v.push(114);
    v.push(97);
    v.push(109);
    v.push(101);
    proof {
        assert(v@ =~= k_number_uframe());
    }
    v
}

pub proof fn k_number_uframe_ok()
    ensures
        str_ok(k_number_uframe()),
        k_number_uframe().len() == 12,
{
    let s = k_number_uframe();
    assert forall|i: int| 0 <= i < s.len() implies str_byte_ok(s[i]) by {
        if i == 0 {
            assert(s[0] == 78);
        } else if i == 1 {
            assert(s[1] == 117);
        } else if i == 2 {
            assert(s[2] == 109);
        } else if i == 3 {
            assert(s[3] == 98);
        } else if i == 4 {
            assert(s[4] == 101);
        } else if i == 5 {
            assert(s[5] == 114);
        } else if i == 6 {
            assert(s[6] == 85);
        } else if i == 7 {
            assert(s[7] == 70);
        } else if i == 8 {
            assert(s[8] == 114);
        } else if i == 9 {
            assert(s[9] == 97);
        } else if i == 10 {
            assert(s[10] == 109);
        } else if i == 11 {
            assert(s[11] == 101);
        } else {
        }
    }
}

/// `"NumberUTool"`
pub open spec fn k_number_utool() -> Seq<u8> {
    seq![78u8, 117, 109, 98, 101, 114, 85, 84, 111, 111, 108]
}

pub fn key_number_utool() -> (v: Vec<u8>)
    ensures
        v@ == k_number_utool(),
{
    let mut v: Vec<u8> = Vec::new();
    v.push(78);
    v.push(117);
    v.push(109);
    v.push(98);
    v.push(101);
    v.push(114);
    v.push(85);
    v.push(84);
    v.push(111);
    v.push(111);
    v.push(108);
    proof {
        assert(v@ =~= k_number_utool());
    }
    v
}

pub proof fn k_number_utool_ok()
    ensures
        str_ok(k_number_utool()),
        k_number_utool().len() == 11,
{
    let s = k_number_utool();
    assert forall|i: int| 0 <= i < s.len() implies str_byte_ok(s[i]) by {
        if i == 0 {
            assert(s[0] == 78);
        } else if i == 1 {
            assert(s[1] == 117);
        } else if i == 2 {
            assert(s[2] == 109);
        } else if i == 3 {
            assert(s[3] == 98);
        } else if i == 4 {
            assert(s[4] == 101);
        } else if i == 5 {
            assert(s[5] == 114);
        } else if i == 6 {
            assert(s[6] == 85);
        } else if i == 7 {
            assert(s[7] == 84);
        } else if i == 8 {
            assert(s[8] == 111);
        } else if i == 9 {
            assert(s[9] == 111);
        } else if i == 10 {
            assert(s[10] == 108);
        } else {
        }
    }
}

/// `"PortNumber"`
pub open spec fn k_port_number() -> Seq<u8> {
    seq![80u8, 111, 114, 116, 78, 117, 109, 98, 101, 114]
}

pub fn key_port_number() -> (v: Vec<u8>)
    ensures
        v@ == k_port_number(),
{
    let mut v: Vec<u8> = Vec::new();
    v.push(80);
    v.push(111);
    v.push(114);
    v.push(116);
    v.push(78);
    v.push(117);
    v.push(109);
    v.push(98);
    v.push(101);
    v.push(114);
    proof {
        assert(v@ =~= k_port_number());
    }
    v
}

pub proof fn k_port_number_ok()
    ensures
        str_ok(k_port_number()),
        k_port_number().len() == 10,
{
    let s = k_port_number();
    assert forall|i: int| 0 <= i < s.len() implies str_byte_ok(s[i]) by {
        if i == 0 {
            assert(s[0] == 80);
        } else if i == 1 {
            assert(s[1] == 111);
        } else if i == 2 {
            assert(s[2] == 114);
        } else if i == 3 {
            assert(s[3] == 116);
        } else if i == 4 {
            assert(s[4] == 78);
        } else if i == 5 {
            assert(s[5] == 117);
        } else if i == 6 {
            assert(s[6] == 109);
        } else if i == 7 {
            assert(s[7] == 98);
        } else if i == 8 {
            assert(s[8] == 101);
        } else if i == 9 {
            assert(s[9] == 114);
        } else {
        }
    }
}

/// `"PortValue"`
pub open spec fn k_port_value() -> Seq<u8> {
    seq![80u8, 111, 114, 116, 86, 97, 108, 117, 101]
}

pub fn key_port_value() -> (v: Vec<u8>)
    ensures
        v@ == k_port_value(),
{
    let mut v: Vec<u8> = Vec::new();
    v.push(80);
    v.push(111);
    v.push(114);
    v.push(116);
    v.push(86);
    v.push(97);
    v.push(108);
    v.push(117);
    v.push(101);
    proof {
        assert(v@ =~= k_port_value());
    }
    v
}

pub proof fn k_port_value_ok()
    ensures
        str_ok(k_port_value()),
        k_port_value().len() == 9,
{
    let s = k_port_value();
    assert forall|i: int| 0 <= i < s.len() implies str_byte_ok(s[i]) by {
        if i == 0 {
            assert(s[0] == 80);
        } else if i == 1 {
            assert(s[1] == 111);
        } else if i == 2 {
            assert(s[2] == 114);
        } else if i == 3 {
            assert(s[3] == 116);
        } else if i == 4 {
            assert(s[4] == 86);
        } else if i == 5 {
            assert(s[5] == 97);
        } else if i == 6 {
            assert(s[6] == 108);
        } else if i == 7 {
            assert(s[7] == 117);
        } else if i == 8 {
            assert(s[8] == 101);
        } else {
        }
    }
}

/// `"Position"`
pub open spec fn k_position() -> Seq<u8> {
    seq![80u8, 111, 115, 105, 116, 105, 111, 110]
}

pub fn key_position() -> (v: Vec<u8>)
    ensures
        v@ == k_position(),
{
    let mut v: Vec<u8> = Vec::new();
    v.push(80);
    v.push(111);
    v.push(115);
    v.push(105);
    v.push(116);
    v.push(105);
    v.push(111);
    v.push(110);
    proof {
        assert(v@ =~= k_position());
    }
    v
}

pub proof fn k_position_ok()
    ensures
        str_ok(k_position()),
        k_position().len() == 8,
{
    let s = k_position();
    assert forall|i: int| 0 <= i < s.len() implies str_byte_ok(s[i]) by {
        if i == 0 {
            assert(s[0] == 80);
        } else if i == 1 {
            assert(s[1] == 111);
        } else if i == 2 {
            assert(s[2] == 115);
        } else if i == 3 {
            assert(s[3] == 105);
        } else if i == 4 {
            assert(s[4] == 116);
        } else if i == 5 {
            assert(s[5] == 105);
        } else if i == 6 {
            assert(s[6] == 111);
        } else if i == 7 {
            assert(s[7] == 110);
        } else {
        }
    }
}

/// `"ProgramName"`
pub open spec fn k_program_name() -> Seq<u8> {
    seq![80u8, 114, 111, 103, 114, 97, 109, 78, 97, 109, 101]
}

pub fn key_program_name() -> (v: Vec<u8>)
    ensures
        v@ == k_program_name(),
{
    let mut v: Vec<u8> = Vec::new();
    v.push(80);
    v.push(114);
    v.push(111);
    v.push(103);
    v.push(114);
    v.push(97);
    v.push(109);
    v.push(78);
    v.push(97);
    v.push(109);
    v.push(101);
    proof {
        assert(v@ =~= k_program_name());
    }
    v
}

pub proof fn k_program_name_ok()
    ensures
        str_ok(k_program_name()),
        k_program_name().len() == 11,
{
    let s = k_program_name();
    assert forall|i: int| 0 <= i < s.len() implies str_byte_ok(s[i]) by {
        if i == 0 {
            assert(s[0] == 80);
        } else if i == 1 {
            assert(s[1] == 114);
        } else if i == 2 {
            assert(s[2] == 111);
        } else if i == 3 {
            assert(s[3] == 103);
        } else if i == 4 {
            assert(s[4] == 114);
        } else if i == 5 {
            assert(s[5] == 97);
        } else if i == 6 {
            assert(s[6] == 109);
        } else if i == 7 {
            assert(s[7] == 78);
        } else if i == 8 {
            assert(s[8] == 97);
        } else if i == 9 {
            assert(s[9] == 109);
        } else if i == 10 {
            assert(s[10] == 101);
        } else {
        }
    }
}

/// `"ProgramStatus"`
pub open spec fn k_program_status() -> Seq<u8> {
    seq![80u8, 114, 111, 103, 114, 97, 109, 83, 116, 97, 116, 117, 115]
}

pub fn key_program_status() -> (v: Vec<u8>)
    ensures
        v@ == k_program_status(),
{
    let mut v: Vec<u8> = Vec::new();
    v.push(80);
    v.push(114);
    v.push(111);
    v.push(103);
    v.push(114);
    v.push(97);
    v.push(109);
    v.push(83);
    v.push(116);
    v.push(97);
    v.push(116);
    v.push(117);
    v.push(115);
    proof {
        assert(v@ =~= k_program_status());
    }
    v
}

pub proof fn k_program_status_ok()
    ensures
        str_ok(k_program_status()),
        k_program_status().len() == 13,
{
    let s = k_program_status();
    assert forall|i: int| 0 <= i < s.len() implies str_byte_ok(s[i]) by {
        if i == 0 {
            assert(s[0] == 80);
        } else if i == 1 {
            assert(s[1] == 114);
        } else if i == 2 {
            assert(s[2] == 111);
        } else if i == 3 {
            assert(s[3] == 103);
        } else if i == 4 {
            assert(s[4] == 114);
        } else if i == 5 {
            assert(s[5] == 97);
        } else if i == 6 {
            assert(s[6] == 109);
        } else if i == 7 {
            assert(s[7] == 83);
        } else if i == 8 {
            assert(s[8] == 116);
        } else if i == 9 {
            assert(s[9] == 97);
        } else if i == 10 {
            assert(s[10] == 116);
        } else if i == 11 {
            assert(s[11] == 117);
        } else if i == 12 {
            assert(s[12] == 115);
        } else {
        }
    }
}

/// `"RegisterNumber"`
pub open spec fn k_register_number() -> Seq<u8> {
    seq![82u8, 101, 103, 105, 115, 116, 101, 114, 78, 117, 109, 98, 101, 114]
}

pub fn key_register_number() -> (v: Vec<u8>)
    ensures
        v@ == k_register_number(),
{
    let mut v: Vec<u8> = Vec::new();
    v.push(82);
    v.push(101);
    v.push(103);
    v.push(105);
    v.push(115);
    v.push(116);
    v.push(101);
    v.push(114);
    v.push(78);
    v.push(117);
    v.push(109);
    v.push(98);
    v.push(101);
    v.push(114);
    proof {
        assert(v@ =~= k_register_number());
    }
    v
}

pub proof fn k_register_number_ok()
    ensures
        str_ok(k_register_number()),
        k_register_number().len() == 14,
{
    let s = k_register_number();
    assert forall|i: int| 0 <= i < s.len() implies str_byte_ok(s[i]) by {
        if i == 0 {
            assert(s[0] == 82);
        } else if i == 1 {
            assert(s[1] == 101);
        } else if i == 2 {
            assert(s[2] == 103);
        } else if i == 3 {
            assert(s[3] == 105);
        } else if i == 4 {
            assert(s[4] == 115);
        } else if i == 5 {
            assert(s[5] == 116);
        } else if i == 6 {
            assert(s[6] == 101);
        } else if i == 7 {
            assert(s[7] == 114);
        } else if i == 8 {
            assert(s[8] == 78);
        } else if i == 9 {
            assert(s[9] == 117);
        } else if i == 10 {
            assert(s[10] == 109);
        } else if i == 11 {
            assert(s[11] == 98);
        } else if i == 12 {
            assert(s[12] == 101);
        } else if i == 13 {
            assert(s[13] == 114);
        } else {
        }
    }
}

/// `"RMIMotionStatus"`
pub open spec fn k_rmi_motion_status() -> Seq<u8> {
    seq![82u8, 77, 73, 77, 111, 116, 105, 111, 110, 83, 116, 97, 116, 117, 115]
}

pub fn key_rmi_motion_status() -> (v: Vec<u8>)
    ensures
        v@ == k_rmi_motion_status(),
{
    let mut v: Vec<u8> = Vec::new();
    v.push(82);
    v.push(77);
    v.push(73);
    v.push(77);
    v.push(111);
    v.push(116);
    v.push(105);
    v.push(111);
    v.push(110);
    v.push(83);
    v.push(116);
    v.push(97);
    v.push(116);
    v.push(117);
    v.push(115);
    proof {
        assert(v@ =~= k_rmi_motion_status());
    }
    v
}

pub proof fn k_rmi_motion_status_ok()
    ensures
        str_ok(k_rmi_motion_status()),
        k_rmi_motion_status().len() == 15,
{
    let s = k_rmi_motion_status();
    assert forall|i: int| 0 <= i < s.len() implies str_byte_ok(s[i]) by {
        if i == 0 {
            assert(s[0] == 82);
        } else if i == 1 {
            assert(s[1] == 77);
        } else if i == 2 {
            assert(s[2] == 73);
        } else if i == 3 {
            assert(s[3] == 77);
        } else if i == 4 {
            assert(s[4] == 111);
        } else if i == 5 {
            assert(s[5] == 116);
        } else if i == 6 {
            assert(s[6] == 105);
        } else if i == 7 {
            assert(s[7] == 111);
        } else if i == 8 {
            assert(s[8] == 110);
        } else if i == 9 {
            assert(s[9] == 83);
        } else if i == 10 {
            assert(s[10] == 116);
        } else if i == 11 {
            assert(s[11] == 97);
        } else if i == 12 {
            assert(s[12] == 116);
        } else if i == 13 {
            assert(s[13] == 117);
        } else if i == 14 {
            assert(s[14] == 115);
        } else {
        }
    }
}

/// `"ScheduleNumber"`
pub open spec fn k_schedule_number() -> Seq<u8> {
    seq![83u8, 99, 104, 101, 100, 117, 108, 101, 78, 117, 109, 98, 101, 114]
}

pub fn key_schedule_number() -> (v: Vec<u8>)
    ensures
        v@ == k_schedule_number(),
{
    let mut v: Vec<u8> = Vec::new();
    v.push(83);
    v.push(99);
    v.push(104);
    v.push(101);
    v.push(100);
    v.push(117);
    v.push(108);
    v.push(101);
    v.push(78);
    v.push(117);
    v.push(109);
    v.push(98);
    v.push(101);
    v.push(114);
    proof {
        assert(v@ =~= k_schedule_number());
    }
    v
}

pub proof fn k_schedule_number_ok()
    ensures
        str_ok(k_schedule_number()),
        k_schedule_number().len() == 14,
{
    let s = k_schedule_number();
    assert forall|i: int| 0 <= i < s.len() implies str_byte_ok(s[i]) by {
        if i == 0 {
            assert(s[0] == 83);
        } else if i == 1 {
            assert(s[1] == 99);
        } else if i == 2 {
            assert(s[2] == 104);
        } else if i == 3 {
            assert(s[3] == 101);
        } else if i == 4 {
            assert(s[4] == 100);
        } else if i == 5 {
            assert(s[5] == 117);
        } else if i == 6 {
            assert(s[6] == 108);
        } else if i == 7 {
            assert(s[7] == 101);
        } else if i == 8 {
            assert(s[8] == 78);
        } else if i == 9 {
            assert(s[9] == 117);
        } else if i == 10 {
            assert(s[10] == 109);
        } else if i == 11 {
            assert(s[11] == 98);
        } else if i == 12 {
            assert(s[12] == 101);
        } else if i == 13 {
            assert(s[13] == 114);
        } else {
        }
    }
}

/// `"SequenceID"`
pub open spec fn k_sequence_id() -> Seq<u8> {
    seq![83u8, 101, 113, 117, 101, 110, 99, 101, 73, 68]
}

pub fn key_sequence_id() -> (v: Vec<u8>)
    ensures
        v@ == k_sequence_id(),
{
    let mut v: Vec<u8> = Vec::new();
    v.push(83);
    v.push(101);
    v.push(113);
    v.push(117);
    v.push(101);
    v.push(110);
    v.push(99);
    v.push(101);
    v.push(73);
    v.push(68);
    proof {
        assert(v@ =~= k_sequence_id());
    }
    v
}

pub proof fn k_sequence_id_ok()
    ensures
        str_ok(k_sequence_id()),
        k_sequence_id().len() == 10,
{
    let s = k_sequence_id();
    assert forall|i: int| 0 <= i < s.len() implies str_byte_ok(s[i]) by {
        if i == 0 {
            assert(s[0] == 83);
        } else if i == 1 {
            assert(s[1] == 101);
        } else if i == 2 {
            assert(s[2] == 113);
        } else if i == 3 {
            assert(s[3] == 117);
        } else if i == 4 {
            assert(s[4] == 101);
        } else if i == 5 {
            assert(s[5] == 110);
        } else if i == 6 {
            assert(s[6] == 99);
        } else if i == 7 {
            assert(s[7] == 101);
        } else if i == 8 {
            assert(s[8] == 73);
        } else if i == 9 {
            assert(s[9] == 68);
        } else {
        }
    }
}

/// `"ServoReady"`
pub open spec fn k_servo_ready() -> Seq<u8> {
    seq![83u8, 101, 114, 118, 111, 82, 101, 97, 100, 121]
}

pub fn key_servo_ready() -> (v: Vec<u8>)
    ensures
        v@ == k_servo_ready(),
{
    let mut v: Vec<u8> = Vec::new();
    v.push(83);
    v.push(101);
    v.push(114);
    v.push(118);
    v.push(111);
    v.push(82);
    v.push(101);
    v.push(97);
    v.push(100);
    v.push(121);
    proof {
        assert(v@ =~= k_servo_ready());
    }
    v
}

pub proof fn k_servo_ready_ok()
    ensures
        str_ok(k_servo_ready()),
        k_servo_ready().len() == 10,
{
    let s = k_servo_ready();
    assert forall|i: int| 0 <= i < s.len() implies str_byte_ok(s[i]) by {
        if i == 0 {
            assert(s[0] == 83);
        } else if i == 1 {
            assert(s[1] == 101);
        } else if i == 2 {
            assert(s[2] == 114);
        } else if i == 3 {
            assert(s[3] == 118);
        } else if i == 4 {
            assert(s[4] == 111);
        } else if i == 5 {
            assert(s[5] == 82);
        } else if i == 6 {
            assert(s[6] == 101);
        } else if i == 7 {
            assert(s[7] == 97);
        } else if i == 8 {
            assert(s[8] == 100);
        } else if i == 9 {
            assert(s[9] == 121);
        } else {
        }
    }
}

/// `"SingleStepMode"`
pub open spec fn k_single_step_mode() -> Seq<u8> {
    seq![83u8, 105, 110, 103, 108, 101, 83, 116, 101, 112, 77, 111, 100, 101]
}

pub fn key_single_step_mode() -> (v: Vec<u8>)
    ensures
        v@ == k_single_step_mode(),
{
    let mut v: Vec<u8> = Vec::new();
    v.push(83);
    v.push(105);
    v.push(110);
    v.push(103);
    v.push(108);
    v.push(101);
    v.push(83);
    v.push(116);
    v.push(101);
    v.push(112);
    v.push(77);
    v.push(111);
    v.push(100);
    v.push(101);
    proof {
        assert(v@ =~= k_single_step_mode());
    }
    v
}

pub proof fn k_single_step_mode_ok()
    ensures
        str_ok(k_single_step_mode()),
        k_single_step_mode().len() == 14,
{
    let s = k_single_step_mode();
    assert forall|i: int| 0 <= i < s.len() implies str_byte_ok(s[i]) by {
        if i == 0 {
            assert(s[0] == 83);
        } else if i == 1 {
            assert(s[1] == 105);
        } else if i == 2 {
            assert(s[2] == 110);
        } else if i == 3 {
            assert(s[3] == 103);
        } else if i == 4 {
            assert(s[4] == 108);
        } else if i == 5 {
            assert(s[5] == 101);
        } else if i == 6 {
            assert(s[6] == 83);
        } else if i == 7 {
            assert(s[7] == 116);
        } else if i == 8 {
            assert(s[8] == 101);
        } else if i == 9 {
            assert(s[9] == 112);
        } else if i == 10 {
            assert(s[10] == 77);
        } else if i == 11 {
            assert(s[11] == 111);
        } else if i == 12 {
            assert(s[12] == 100);
        } else if i == 13 {
            assert(s[13] == 101);
        } else {
        }
    }
}

/// `"Speed"`
pub open spec fn k_speed() -> Seq<u8> {
    seq![83u8, 112, 101, 101, 100]
}

pub fn key_speed() -> (v: Vec<u8>)
    ensures
        v@ == k_speed(),
{
    let mut v: Vec<u8> = Vec::new();
    v.push(83);
    v.push(112);
    v.push(101);
    v.push(101);
    v.push(100);
    proof {
        assert(v@ =~= k_speed());
    }
    v
}

pub proof fn k_speed_ok()
    ensures
        str_ok(k_speed()),
        k_speed().len() == 5,
{
    let s = k_speed();
    assert forall|i: int| 0 <= i < s.len() implies str_byte_ok(s[i]) by {
        if i == 0 {
            assert(s[0] == 83);
        } else if i == 1 {
            assert(s[1] == 112);
        } else if i == 2 {
            assert(s[2] == 101);
        } else if i == 3 {
            assert(s[3] == 101);
        } else if i == 4 {
            assert(s[4] == 100);
        } else {
        }
    }
}

/// `"SpeedType"`
pub open spec fn k_speed_type() -> Seq<u8> {
    seq![83u8, 112, 101, 101, 100, 84, 121, 112, 101]
}

pub fn key_speed_type() -> (v: Vec<u8>)
    ensures
        v@ == k_speed_type(),
{
    let mut v: Vec<u8> = Vec::new();
    v.push(83);
    v.push(112);
    v.push(101);
    v.push(101);
    v.push(100);
    v.push(84);
    v.push(121);
    v.push(112);
    v.push(101);
    proof {
        assert(v@ =~= k_speed_type());
    }
    v
}

pub proof fn k_speed_type_ok()
    ensures
        str_ok(k_speed_type()),
        k_speed_type().len() == 9,
{
    let s = k_speed_type();
    assert forall|i: int| 0 <= i < s.len() implies str_byte_ok(s[i]) by {
        if i == 0 {
            assert(s[0] == 83);
        } else if i == 1 {
            assert(s[1] == 112);
        } else if i == 2 {
            assert(s[2] == 101);
        } else if i == 3 {
            assert(s[3] == 101);
        } else if i == 4 {
            assert(s[4] == 100);
        } else if i == 5 {
            assert(s[5] == 84);
        } else if i == 6 {
            assert(s[6] == 121);
        } else if i == 7 {
            assert(s[7] == 112);
        } else if i == 8 {
            assert(s[8] == 101);
        } else {
        }
    }
}

/// `"FRC_Abort"`
pub open spec fn k_t_abort() -> Seq<u8> {
    seq![70u8, 82, 67, 95, 65, 98, 111, 114, 116]
}

pub fn key_t_abort() -> (v: Vec<u8>)
    ensures
        v@ == k_t_abort(),
{
    let mut v: Vec<u8> = Vec::new();
    v.push(70);
    v.push(82);
    v.push(67);
    v.push(95);
    v.push(65);
    v.push(98);
    v.push(111);
    v.push(114);
    v.push(116);
    proof {
        assert(v@ =~= k_t_abort());
    }
    v
}

pub proof fn k_t_abort_ok()
    ensures
        str_ok(k_t_abort()),
        k_t_abort().len() == 9,
{
    let s = k_t_abort();
    assert forall|i: int| 0 <= i < s.len() implies str_byte_ok(s[i]) by {
        if i == 0 {
            assert(s[0] == 70);
        } else if i == 1 {
            assert(s[1] == 82);
        } else if i == 2 {
            assert(s[2] == 67);
        } else if i == 3 {
            assert(s[3] == 95);
        } else if i == 4 {
            assert(s[4] == 65);
        } else if i == 5 {
            assert(s[5] == 98);
        } else if i == 6 {
            assert(s[6] == 111);
        } else if i == 7 {
            assert(s[7] == 114);
        } else if i == 8 {
            assert(s[8] == 116);
        } else {
        }
    }
}

/// `"FRC_Call"`
pub open spec fn k_t_call() -> Seq<u8> {
    seq![70u8, 82, 67, 95, 67, 97, 108, 108]
}

pub fn key_t_call() -> (v: Vec<u8>)
    ensures
        v@ == k_t_call(),
{
    let mut v: Vec<u8> = Vec::new();
    v.push(70);
    v.push(82);
    v.push(67);
    v.push(95);
    v.push(67);
    v.push(97);
    v.push(108);
    v.push(108);
    proof {
        assert(v@ =~= k_t_call());
    }
    v
}

pub proof fn k_t_call_ok()
    ensures
        str_ok(k_t_call()),
        k_t_call().len() == 8,
{
    let s = k_t_call();
    assert forall|i: int| 0 <= i < s.len() implies str_byte_ok(s[i]) by {
        if i == 0 {
            assert(s[0] == 70);
        } else if i == 1 {
            assert(s[1] == 82);
        } else if i == 2 {
            assert(s[2] == 67);
        } else if i == 3 {
            assert(s[3] == 95);
        } else if i == 4 {
            assert(s[4] == 67);
        } else if i == 5 {
            assert(s[5] == 97);
        } else if i == 6 {
            assert(s[6] == 108);
        } else if i == 7 {
            assert(s[7] == 108);
        } else {
        }
    }
}

/// `"FRC_CircularRelative"`
pub open spec fn k_t_circular_relative() -> Seq<u8> {
    seq![70u8, 82, 67, 95, 67, 105, 114, 99, 117, 108, 97, 114, 82, 101, 108, 97, 116, 105, 118, 101]
}

pub fn key_t_circular_relative() -> (v: Vec<u8>)
    ensures
        v@ == k_t_circular_relative(),
{
    let mut v: Vec<u8> = Vec::new();
    v.push(70);
    v.push(82);
    v.push(67);
    v.push(95);
    v.push(67);
    v.push(105);
    v.push(114);
    v.push(99);
    v.push(117);
    v.push(108);
    v.push(97);
    v.push(114);
    v.push(82);
    v.push(101);
    v.push(108);
    v.push(97);
    v.push(116);
    v.push(105);
    v.push(118);
    v.push(101);
    proof {
        assert(v@ =~= k_t_circular_relative());
    }
    v
}

pub proof fn k_t_circular_relative_ok()
    ensures
        str_ok(k_t_circular_relative()),
        k_t_circular_relative().len() == 20,
{
    let s = k_t_circular_relative();
    assert forall|i: int| 0 <= i < s.len() implies str_byte_ok(s[i]) by {
        if i == 0 {
            assert(s[0] == 70);
        } else if i == 1 {
            assert(s[1] == 82);
        } else if i == 2 {
            assert(s[2] == 67);
        } else if i == 3 {
            assert(s[3] == 95);
        } else if i == 4 {
            assert(s[4] == 67);
        } else if i == 5 {
            assert(s[5] == 105);
        } else if i == 6 {
            assert(s[6] == 114);
        } else if i == 7 {
            assert(s[7] == 99);
        } else if i == 8 {
            assert(s[8] == 117);
        } else if i == 9 {
            assert(s[9] == 108);
        } else if i == 10 {
            assert(s[10] == 97);
        } else if i == 11 {
            assert(s[11] == 114);
        } else if i == 12 {
            assert(s[12] == 82);
        } else if i == 13 {
            assert(s[13] == 101);
        } else if i == 14 {
            assert(s[14] == 108);
        } else if i == 15 {
            assert(s[15] == 97);
        } else if i == 16 {
            assert(s[16] == 116);
        } else if i == 17 {
            assert(s[17] == 105);
        } else if i == 18 {
            assert(s[18] == 118);
        } else if i == 19 {
            assert(s[19] == 101);
        } else {
        }
    }
}

/// `"FRC_Connect"`
pub open spec fn k_t_connect() -> Seq<u8> {
    seq![70u8, 82, 67, 95, 67, 111, 110, 110, 101, 99, 116]
}

pub fn key_t_connect() -> (v: Vec<u8>)
    ensures
        v@ == k_t_connect(),
{
    let mut v: Vec<u8> = Vec::new();
    v.push(70);
    v.push(82);
    v.push(67);
    v.push(95);
    v.push(67);
    v.push(111);
    v.push(110);
    v.push(110);
    v.push(101);
    v.push(99);
    v.push(116);
    proof {
        assert(v@ =~= k_t_connect());
    }
    v
}

pub proof fn k_t_connect_ok()
    ensures
        str_ok(k_t_connect()),
        k_t_connect().len() == 11,
{
    let s = k_t_connect();
    assert forall|i: int| 0 <= i < s.len() implies str_byte_ok(s[i]) by {
        if i == 0 {
            assert(s[0] == 70);
        } else if i == 1 {
            assert(s[1] == 82);
        } else if i == 2 {
            assert(s[2] == 67);
        } else if i == 3 {
            assert(s[3] == 95);
        } else if i == 4 {
            assert(s[4] == 67);
        } else if i == 5 {
            assert(s[5] == 111);
        } else if i == 6 {
            assert(s[6] == 110);
        } else if i == 7 {
            assert(s[7] == 110);
        } else if i == 8 {
            assert(s[8] == 101);
        } else if i == 9 {
            assert(s[9] == 99);
        } else if i == 10 {
            assert(s[10] == 116);
        } else {
        }
    }
}

/// `"FRC_Continue"`
pub open spec fn k_t_continue() -> Seq<u8> {
    seq![70u8, 82, 67, 95, 67, 111, 110, 116, 105, 110, 117, 101]
}

pub fn key_t_continue() -> (v: Vec<u8>)
    ensures
        v@ == k_t_continue(),
{
    let mut v: Vec<u8> = Vec::new();
    v.push(70);
    v.push(82);
    v.push(67);
    v.push(95);
    v.push(67);
    v.push(111);
    v.push(110);
    v.push(116);
    v.push(105);
    v.push(110);
    v.push(117);
    v.push(101);
    proof {
        assert(v@ =~= k_t_continue());
    }
    v
}

pub proof fn k_t_continue_ok()
    ensures
        str_ok(k_t_continue()),
        k_t_continue().len() == 12,
{
    let s = k_t_continue();
    assert forall|i: int| 0 <= i < s.len() implies str_byte_ok(s[i]) by {
        if i == 0 {
            assert(s[0] == 70);
        } else if i == 1 {
            assert(s[1] == 82);
        } else if i == 2 {
            assert(s[2] == 67);
        } else if i == 3 {
            assert(s[3] == 95);
        } else if i == 4 {
            assert(s[4] == 67);
        } else if i == 5 {
            assert(s[5] == 111);
        } else if i == 6 {
            assert(s[6] == 110);
        } else if i == 7 {
            assert(s[7] == 116);
        } else if i == 8 {
            assert(s[8] == 105);
        } else if i == 9 {
            assert(s[9] == 110);
        } else if i == 10 {
            assert(s[10] == 117);
        } else if i == 11 {
            assert(s[11] == 101);
        } else {
        }
    }
}

/// `"FRC_Disconnect"`
pub open spec fn k_t_disconnect() -> Seq<u8> {
    seq![70u8, 82, 67, 95, 68, 105, 115, 99, 111, 110, 110, 101, 99, 116]
}

pub fn key_t_disconnect() -> (v: Vec<u8>)
    ensures
        v@ == k_t_disconnect(),
{
    let mut v: Vec<u8> = Vec::new();
    v.push(70);
    v.push(82);
    v.push(67);
    v.push(95);
    v.push(68);
    v.push(105);
    v.push(115);
    v.push(99);
    v.push(111);
    v.push(110);
    v.push(110);
    v.push(101);
    v.push(99);
    v.push(116);
    proof {
        assert(v@ =~= k_t_disconnect());
    }
    v
}

pub proof fn k_t_disconnect_ok()
    ensures
        str_ok(k_t_disconnect()),
        k_t_disconnect().len() == 14,
{
    let s = k_t_disconnect();
    assert forall|i: int| 0 <= i < s.len() implies str_byte_ok(s[i]) by {
        if i == 0 {
            assert(s[0] == 70);
        } else if i == 1 {
            assert(s[1] == 82);
        } else if i == 2 {
            assert(s[2] == 67);
        } else if i == 3 {
            assert(s[3] == 95);
        } else if i == 4 {
            assert(s[4] == 68);
        } else if i == 5 {
            assert(s[5] == 105);
        } else if i == 6 {
            assert(s[6] == 115);
        } else if i == 7 {
            assert(s[7] == 99);
        } else if i == 8 {
            assert(s[8] == 111);
        } else if i == 9 {
            assert(s[9] == 110);
        } else if i == 10 {
            assert(s[10] == 110);
        } else if i == 11 {
            assert(s[11] == 101);
        } else if i == 12 {
            assert(s[12] == 99);
        } else if i == 13 {
            assert(s[13] == 116);
        } else {
        }
    }
}

/// `"FRC_GetStatus"`
pub open spec fn k_t_get_status() -> Seq<u8> {
    seq![70u8, 82, 67, 95, 71, 101, 116, 83, 116, 97, 116, 117, 115]
}

pub fn key_t_get_status() -> (v: Vec<u8>)
    ensures
        v@ == k_t_get_status(),
{
    let mut v: Vec<u8> = Vec::new();
    v.push(70);
    v.push(82);
    v.push(67);
    v.push(95);
    v.push(71);
    v.push(101);
    v.push(116);
    v.push(83);
    v.push(116);
    v.push(97);
    v.push(116);
    v.push(117);
    v.push(115);
    proof {
        assert(v@ =~= k_t_get_status());
    }
    v
}

pub proof fn k_t_get_status_ok()
    ensures
        str_ok(k_t_get_status()),
        k_t_get_status().len() == 13,
{
    let s = k_t_get_status();
    assert forall|i: int| 0 <= i < s.len() implies str_byte_ok(s[i]) by {
        if i == 0 {
            assert(s[0] == 70);
        } else if i == 1 {
            assert(s[1] == 82);
        } else if i == 2 {
            assert(s[2] == 67);
        } else if i == 3 {
            assert(s[3] == 95);
        } else if i == 4 {
            assert(s[4] == 71);
        } else if i == 5 {
            assert(s[5] == 101);
        } else if i == 6 {
            assert(s[6] == 116);
        } else if i == 7 {
            assert(s[7] == 83);
        } else if i == 8 {
            assert(s[8] == 116);
        } else if i == 9 {
            assert(s[9] == 97);
        } else if i == 10 {
            assert(s[10] == 116);
        } else if i == 11 {
            assert(s[11] == 117);
        } else if i == 12 {
            assert(s[12] == 115);
        } else {
        }
    }
}

/// `"FRC_GetUFrameUTool"`
pub open spec fn k_t_get_uframe_utool() -> Seq<u8> {
    seq![70u8, 82, 67, 95, 71, 101, 116, 85, 70, 114, 97, 109, 101, 85, 84, 111, 111, 108]
}

pub fn key_t_get_uframe_utool() -> (v: Vec<u8>)
    ensures
        v@ == k_t_get_uframe_utool(),
{
    let mut v: Vec<u8> = Vec::new();
    v.push(70);
    v.push(82);
    v.push(67);
    v.push(95);
    v.push(71);
    v.push(101);
    v.push(116);
    v.push(85);
    v.push(70);
    v.push(114);
    v.push(97);
    v.push(109);
    v.push(101);
    v.push(85);
    v.push(84);
    v.push(111);
    v.push(111);
    v.push(108);
    proof {
        assert(v@ =~= k_t_get_uframe_utool());
    }
    v
}

pub proof fn k_t_get_uframe_utool_ok()
    ensures
        str_ok(k_t_get_uframe_utool()),
        k_t_get_uframe_utool().len() == 18,
{
    let s = k_t_get_uframe_utool();
    assert forall|i: int| 0 <= i < s.len() implies str_byte_ok(s[i]) by {
        if i == 0 {
            assert(s[0] == 70);
        } else if i == 1 {
            assert(s[1] == 82);
        } else if i == 2 {
            assert(s[2] == 67);
        } else if i == 3 {
            assert(s[3] == 95);
        } else if i == 4 {
            assert(s[4] == 71);
        } else if i == 5 {
            assert(s[5] == 101);
        } else if i == 6 {
            assert(s[6] == 116);
        } else if i == 7 {
            assert(s[7] == 85);
        } else if i == 8 {
            assert(s[8] == 70);
        } else if i == 9 {
            assert(s[9] == 114);
        } else if i == 10 {
            assert(s[10] == 97);
        } else if i == 11 {
            assert(s[11] == 109);
        } else if i == 12 {
            assert(s[12] == 101);
        } else if i == 13 {
            assert(s[13] == 85);
        } else if i == 14 {
            assert(s[14] == 84);
        } else if i == 15 {
            assert(s[15] == 111);
        } else if i == 16 {
            assert(s[16] == 111);
        } else if i == 17 {
            assert(s[17] == 108);
        } else {
        }
    }
}

/// `"FRC_Initialize"`
pub open spec fn k_t_initialize() -> Seq<u8> {
    seq![70u8, 82, 67, 95, 73, 110, 105, 116, 105, 97, 108, 105, 122, 101]
}

pub fn key_t_initialize() -> (v: Vec<u8>)
    ensures
        v@ == k_t_initialize(),
{
    let mut v: Vec<u8> = Vec::new();
    v.push(70);
    v.push(82);
    v.push(67);
    v.push(95);
    v.push(73);
    v.push(110);
    v.push(105);
    v.push(116);
    v.push(105);
    v.push(97);
    v.push(108);
    v.push(105);
    v.push(122);
    v.push(101);
    proof {
        assert(v@ =~= k_t_initialize());
    }
    v
}

pub proof fn k_t_initialize_ok()
    ensures
        str_ok(k_t_initialize()),
        k_t_initialize().len() == 14,
{
    let s = k_t_initialize();
    assert forall|i: int| 0 <= i < s.len() implies str_byte_ok(s[i]) by {
        if i == 0 {
            assert(s[0] == 70);
        } else if i == 1 {
            assert(s[1] == 82);
        } else if i == 2 {
            assert(s[2] == 67);
        } else if i == 3 {
            assert(s[3] == 95);
        } else if i == 4 {
            assert(s[4] == 73);
        } else if i == 5 {
            assert(s[5] == 110);
        } else if i == 6 {
            assert(s[6] == 105);
        } else if i == 7 {
            assert(s[7] == 116);
        } else if i == 8 {
            assert(s[8] == 105);
        } else if i == 9 {
            assert(s[9] == 97);
        } else if i == 10 {
            assert(s[10] == 108);
        } else if i == 11 {
            assert(s[11] == 105);
        } else if i == 12 {
            assert(s[12] == 122);
        } else if i == 13 {
            assert(s[13] == 101);
        } else {
        }
    }
}

/// `"FRC_JointMotionJRep"`
pub open spec fn k_t_joint_motion_jrep() -> Seq<u8> {
    seq![70u8, 82, 67, 95, 74, 111, 105, 110, 116, 77, 111, 116, 105, 111, 110, 74, 82, 101, 112]
}

pub fn key_t_joint_motion_jrep() -> (v: Vec<u8>)
    ensures
        v@ == k_t_joint_motion_jrep(),
{
    let mut v: Vec<u8> = Vec::new();
    v.push(70);
    v.push(82);
    v.push(67);
    v.push(95);
    v.push(74);
    v.push(111);
    v.push(105);
    v.push(110);
    v.push(116);
    v.push(77);
    v.push(111);
    v.push(116);
    v.push(105);
    v.push(111);
    v.push(110);
    v.push(74);
    v.push(82);
    v.push(101);
    v.push(112);
    proof {
        assert(v@ =~= k_t_joint_motion_jrep());
    }
    v
}

pub proof fn k_t_joint_motion_jrep_ok()
    ensures
        str_ok(k_t_joint_motion_jrep()),
        k_t_joint_motion_jrep().len() == 19,
{
    let s = k_t_joint_motion_jrep();
    assert forall|i: int| 0 <= i < s.len() implies str_byte_ok(s[i]) by {
        if i == 0 {
            assert(s[0] == 70);
        } else if i == 1 {
            assert(s[1] == 82);
        } else if i == 2 {
            assert(s[2] == 67);
        } else if i == 3 {
            assert(s[3] == 95);
        } else if i == 4 {
            assert(s[4] == 74);
        } else if i == 5 {
            assert(s[5] == 111);
        } else if i == 6 {
            assert(s[6] == 105);
        } else if i == 7 {
            assert(s[7] == 110);
        } else if i == 8 {
            assert(s[8] == 116);
        } else if i == 9 {
            assert(s[9] == 77);
        } else if i == 10 {
            assert(s[10] == 111);
        } else if i == 11 {
            assert(s[11] == 116);
        } else if i == 12 {
            assert(s[12] == 105);
        } else if i == 13 {
            assert(s[13] == 111);
        } else if i == 14 {
            assert(s[14] == 110);
        } else if i == 15 {
            assert(s[15] == 74);
        } else if i == 16 {
            assert(s[16] == 82);
        } else if i == 17 {
            assert(s[17] == 101);
        } else if i == 18 {
            assert(s[18] == 112);
        } else {
        }
    }
}

/// `"FRC_LinearRelative"`
pub open spec fn k_t_linear_relative() -> Seq<u8> {
    seq![70u8, 82, 67, 95, 76, 105, 110, 101, 97, 114, 82, 101, 108, 97, 116, 105, 118, 101]
}

pub fn key_t_linear_relative() -> (v: Vec<u8>)
    ensures
        v@ == k_t_linear_relative(),
{
    let mut v: Vec<u8> = Vec::new();
    v.push(70);
    v.push(82);
    v.push(67);
    v.push(95);
    v.push(76);
    v.push(105);
    v.push(110);
    v.push(101);
    v.push(97);
    v.push(114);
    v.push(82);
    v.push(101);
    v.push(108);
    v.push(97);
    v.push(116);
    v.push(105);
    v.push(118);
    v.push(101);
    proof {
        assert(v@ =~= k_t_linear_relative());
    }
    v
}

pub proof fn k_t_linear_relative_ok()
    ensures
        str_ok(k_t_linear_relative()),
        k_t_linear_relative().len() == 18,
{
    let s = k_t_linear_relative();
    assert forall|i: int| 0 <= i < s.len() implies str_byte_ok(s[i]) by {
        if i == 0 {
            assert(s[0] == 70);
        } else if i == 1 {
            assert(s[1] == 82);
        } else if i == 2 {
            assert(s[2] == 67);
        } else if i == 3 {
            assert(s[3] == 95);
        } else if i == 4 {
            assert(s[4] == 76);
        } else if i == 5 {
            assert(s[5] == 105);
        } else if i == 6 {
            assert(s[6] == 110);
        } else if i == 7 {
            assert(s[7] == 101);
        } else if i == 8 {
            assert(s[8] == 97);
        } else if i == 9 {
            assert(s[9] == 114);
        } else if i == 10 {
            assert(s[10] == 82);
        } else if i == 11 {
            assert(s[11] == 101);
        } else if i == 12 {
            assert(s[12] == 108);
        } else if i == 13 {
            assert(s[13] == 97);
        } else if i == 14 {
            assert(s[14] == 116);
        } else if i == 15 {
            assert(s[15] == 105);
        } else if i == 16 {
            assert(s[16] == 118);
        } else if i == 17 {
            assert(s[17] == 101);
        } else {
        }
    }
}

/// `"FRC_Pause"`
pub open spec fn k_t_pause() -> Seq<u8> {
    seq![70u8, 82, 67, 95, 80, 97, 117, 115, 101]
}

pub fn key_t_pause() -> (v: Vec<u8>)
    ensures
        v@ == k_t_pause(),
{
    let mut v: Vec<u8> = Vec::new();
    v.push(70);
    v.push(82);
    v.push(67);
    v.push(95);
    v.push(80);
    v.push(97);
    v.push(117);
    v.push(115);
    v.push(101);
    proof {
        assert(v@ =~= k_t_pause());
    }
    v
}

pub proof fn k_t_pause_ok()
    ensures
        str_ok(k_t_pause()),
        k_t_pause().len() == 9,
{
    let s = k_t_pause();
    assert forall|i: int| 0 <= i < s.len() implies str_byte_ok(s[i]) by {
        if i == 0 {
            assert(s[0] == 70);
        } else if i == 1 {
            assert(s[1] == 82);
        } else if i == 2 {
            assert(s[2] == 67);
        } else if i == 3 {
            assert(s[3] == 95);
        } else if i == 4 {
            assert(s[4] == 80);
        } else if i == 5 {
            assert(s[5] == 97);
        } else if i == 6 {
            assert(s[6] == 117);
        } else if i == 7 {
            assert(s[7] == 115);
        } else if i == 8 {
            assert(s[8] == 101);
        } else {
        }
    }
}

/// `"FRC_ReadCartesianPosition"`
pub open spec fn k_t_read_cartesian_position() -> Seq<u8> {
    seq![70u8, 82, 67, 95, 82, 101, 97, 100, 67, 97, 114, 116, 101, 115, 105, 97, 110, 80, 111, 115, 105, 116, 105, 111, 110]
}

pub fn key_t_read_cartesian_position() -> (v: Vec<u8>)
    ensures
        v@ == k_t_read_cartesian_position(),
{
    let mut v: Vec<u8> = Vec::new();
    v.push(70);
    v.push(82);
    v.push(67);
    v.push(95);
    v.push(82);
    v.push(101);
    v.push(97);
    v.push(100);
    v.push(67);
    v.push(97);
    v.push(114);
    v.push(116);
    v.push(101);
    v.push(115);
    v.push(105);
    v.push(97);
    v.push(110);
    v.push(80);
    v.push(111);
    v.push(115);
    v.push(105);
    v.push(116);
    v.push(105);
    v.push(111);
    v.push(110);
    proof {
        assert(v@ =~= k_t_read_cartesian_position());
    }
    v
}

pub proof fn k_t_read_cartesian_position_ok()
    ensures
        str_ok(k_t_read_cartesian_position()),
        k_t_read_cartesian_position().len() == 25,
{
    let s = k_t_read_cartesian_position();
    assert forall|i: int| 0 <= i < s.len() implies str_byte_ok(s[i]) by {
        if i == 0 {
            assert(s[0] == 70);
        } else if i == 1 {
            assert(s[1] == 82);
        } else if i == 2 {
            assert(s[2] == 67);
        } else if i == 3 {
            assert(s[3] == 95);
        } else if i == 4 {
            assert(s[4] == 82);
        } else if i == 5 {
            assert(s[5] == 101);
        } else if i == 6 {
            assert(s[6] == 97);
        } else if i == 7 {
            assert(s[7] == 100);
        } else if i == 8 {
            assert(s[8] == 67);
        } else if i == 9 {
            assert(s[9] == 97);
        } else if i == 10 {
            assert(s[10] == 114);
        } else if i == 11 {
            assert(s[11] == 116);
        } else if i == 12 {
            assert(s[12] == 101);
        } else if i == 13 {
            assert(s[13] == 115);
        } else if i == 14 {
            assert(s[14] == 105);
        } else if i == 15 {
            assert(s[15] == 97);
        } else if i == 16 {
            assert(s[16] == 110);
        } else if i == 17 {
            assert(s[17] == 80);
        } else if i == 18 {
            assert(s[18] == 111);
        } else if i == 19 {
            assert(s[19] == 115);
        } else if i == 20 {
            assert(s[20] == 105);
        } else if i == 21 {
            assert(s[21] == 116);
        } else if i == 22 {
            assert(s[22] == 105);
        } else if i == 23 {
            assert(s[23] == 111);
        } else if i == 24 {
            assert(s[24] == 110);
        } else {
        }
    }
}

/// `"FRC_ReadDIN"`
pub open spec fn k_t_read_din() -> Seq<u8> {
    seq![70u8, 82, 67, 95, 82, 101, 97, 100, 68, 73, 78]
}

pub fn key_t_read_din() -> (v: Vec<u8>)
    ensures
        v@ == k_t_read_din(),
{
    let mut v: Vec<u8> = Vec::new();
    v.push(70);
    v.push(82);
    v.push(67);
    v.push(95);
    v.push(82);
    v.push(101);
    v.push(97);
    v.push(100);
    v.push(68);
    v.push(73);
    v.push(78);
    proof {
        assert(v@ =~= k_t_read_din());
    }
    v
}

pub proof fn k_t_read_din_ok()
    ensures
        str_ok(k_t_read_din()),
        k_t_read_din().len() == 11,
{
    let s = k_t_read_din();
    assert forall|i: int| 0 <= i < s.len() implies str_byte_ok(s[i]) by {
        if i == 0 {
            assert(s[0] == 70);
        } else if i == 1 {
            assert(s[1] == 82);
        } else if i == 2 {
            assert(s[2] == 67);
        } else if i == 3 {
            assert(s[3] == 95);
        } else if i == 4 {
            assert(s[4] == 82);
        } else if i == 5 {
            assert(s[5] == 101);
        } else if i == 6 {
            assert(s[6] == 97);
        } else if i == 7 {
            assert(s[7] == 100);
        } else if i == 8 {
            assert(s[8] == 68);
        } else if i == 9 {
            assert(s[9] == 73);
        } else if i == 10 {
            assert(s[10] == 78);
        } else {
        }
    }
}

/// `"FRC_ReadError"`
pub open spec fn k_t_read_error() -> Seq<u8> {
    seq![70u8, 82, 67, 95, 82, 101, 97, 100, 69, 114, 114, 111, 114]
}

pub fn key_t_read_error() -> (v: Vec<u8>)
    ensures
        v@ == k_t_read_error(),
{
    let mut v: Vec<u8> = Vec::new();
    v.push(70);
    v.push(82);
    v.push(67);
    v.push(95);
    v.push(82);
    v.push(101);
    v.push(97);
    v.push(100);
    v.push(69);
    v.push(114);
    v.push(114);
    v.push(111);
    v.push(114);
    proof {
        assert(v@ =~= k_t_read_error());
    }
    v
}

pub proof fn k_t_read_error_ok()
    ensures
        str_ok(k_t_read_error()),
        k_t_read_error().len() == 13,
{
    let s = k_t_read_error();
    assert forall|i: int| 0 <= i < s.len() implies str_byte_ok(s[i]) by {
        if i == 0 {
            assert(s[0] == 70);
        } else if i == 1 {
            assert(s[1] == 82);
        } else if i == 2 {
            assert(s[2] == 67);
        } else if i == 3 {
            assert(s[3] == 95);
        } else if i == 4 {
            assert(s[4] == 82);
        } else if i == 5 {
            assert(s[5] == 101);
        } else if i == 6 {
            assert(s[6] == 97);
        } else if i == 7 {
            assert(s[7] == 100);
        } else if i == 8 {
            assert(s[8] == 69);
        } else if i == 9 {
            assert(s[9] == 114);
        } else if i == 10 {
            assert(s[10] == 114);
        } else if i == 11 {
            assert(s[11] == 111);
        } else if i == 12 {
            assert(s[12] == 114);
        } else {
        }
    }
}

/// `"FRC_ReadJointAngles"`
pub open spec fn k_t_read_joint_angles() -> Seq<u8> {
    seq![70u8, 82, 67, 95, 82, 101, 97, 100, 74, 111, 105, 110, 116, 65, 110, 103, 108, 101, 115]
}

pub fn key_t_read_joint_angles() -> (v: Vec<u8>)
    ensures
        v@ == k_t_read_joint_angles(),
{
    let mut v: Vec<u8> = Vec::new();
    v.push(70);
    v.push(82);
    v.push(67);
    v.push(95);
    v.push(82);
    v.push(101);
    v.push(97);
    v.push(100);
    v.push(74);
    v.push(111);
    v.push(105);
    v.push(110);
    v.push(116);
    v.push(65);
    v.push(110);
    v.push(103);
    v.push(108);
    v.push(101);
    v.push(115);
    proof {
        assert(v@ =~= k_t_read_joint_angles());
    }
    v
}

pub proof fn k_t_read_joint_angles_ok()
    ensures
        str_ok(k_t_read_joint_angles()),
        k_t_read_joint_angles().len() == 19,
{
    let s = k_t_read_joint_angles();
    assert forall|i: int| 0 <= i < s.len() implies str_byte_ok(s[i]) by {
        if i == 0 {
            assert(s[0] == 70);
        } else if i == 1 {
            assert(s[1] == 82);
        } else if i == 2 {
            assert(s[2] == 67);
        } else if i == 3 {
            assert(s[3] == 95);
        } else if i == 4 {
            assert(s[4] == 82);
        } else if i == 5 {
            assert(s[5] == 101);
        } else if i == 6 {
            assert(s[6] == 97);
        } else if i == 7 {
            assert(s[7] == 100);
        } else if i == 8 {
            assert(s[8] == 74);
        } else if i == 9 {
            assert(s[9] == 111);
        } else if i == 10 {
            assert(s[10] == 105);
        } else if i == 11 {
            assert(s[11] == 110);
        } else if i == 12 {
            assert(s[12] == 116);
        } else if i == 13 {
            assert(s[13] == 65);
        } else if i == 14 {
            assert(s[14] == 110);
        } else if i == 15 {
            assert(s[15] == 103);
        } else if i == 16 {
            assert(s[16] == 108);
        } else if i == 17 {
            assert(s[17] == 101);
        } else if i == 18 {
            assert(s[18] == 115);
        } else {
        }
    }
}

/// `"FRC_ReadPositionRegister"`
pub open spec fn k_t_read_position_register() -> Seq<u8> {
    seq![70u8, 82, 67, 95, 82, 101, 97, 100, 80, 111, 115, 105, 116, 105, 111, 110, 82, 101, 103, 105, 115, 116, 101, 114]
}

pub fn key_t_read_position_register() -> (v: Vec<u8>)
    ensures
        v@ == k_t_read_position_register(),
{
    let mut v: Vec<u8> = Vec::new();
    v.push(70);
    v.push(82);
    v.push(67);
    v.push(95);
    v.push(82);
    v.push(101);
    v.push(97);
    v.push(100);
    v.push(80);
    v.push(111);
    v.push(115);
    v.push(105);
    v.push(116);
    v.push(105);
    v.push(111);
    v.push(110);
    v.push(82);
    v.push(101);
    v.push(103);
    v.push(105);
    v.push(115);
    v.push(116);
    v.push(101);
    v.push(114);
    proof {
        assert(v@ =~= k_t_read_position_register());
    }
    v
}

pub proof fn k_t_read_position_register_ok()
    ensures
        str_ok(k_t_read_position_register()),
        k_t_read_position_register().len() == 24,
{
    let s = k_t_read_position_register();
    assert forall|i: int| 0 <= i < s.len() implies str_byte_ok(s[i]) by {
        if i == 0 {
            assert(s[0] == 70);
        } else if i == 1 {
            assert(s[1] == 82);
        } else if i == 2 {
            assert(s[2] == 67);
        } else if i == 3 {
            assert(s[3] == 95);
        } else if i == 4 {
            assert(s[4] == 82);
        } else if i == 5 {
            assert(s[5] == 101);
        } else if i == 6 {
            assert(s[6] == 97);
        } else if i == 7 {
            assert(s[7] == 100);
        } else if i == 8 {
            assert(s[8] == 80);
        } else if i == 9 {
            assert(s[9] == 111);
        } else if i == 10 {
            assert(s[10] == 115);
        } else if i == 11 {
            assert(s[11] == 105);
        } else if i == 12 {
            assert(s[12] == 116);
        } else if i == 13 {
            assert(s[13] == 105);
        } else if i == 14 {
            assert(s[14] == 111);
        } else if i == 15 {
            assert(s[15] == 110);
        } else if i == 16 {
            assert(s[16] == 82);
        } else if i == 17 {
            assert(s[17] == 101);
        } else if i == 18 {
            assert(s[18] == 103);
        } else if i == 19 {
            assert(s[19] == 105);
        } else if i == 20 {
            assert(s[20] == 115);
        } else if i == 21 {
            assert(s[21] == 116);
        } else if i == 22 {
            assert(s[22] == 101);
        } else if i == 23 {
            assert(s[23] == 114);
        } else {
        }
    }
}

/// `"FRC_ReadTCPSpeed"`
pub open spec fn k_t_read_tcp_speed() -> Seq<u8> {
    seq![70u8, 82, 67, 95, 82, 101, 97, 100, 84, 67, 80, 83, 112, 101, 101, 100]
}

pub fn key_t_read_tcp_speed() -> (v: Vec<u8>)
    ensures
        v@ == k_t_read_tcp_speed(),
{
    let mut v: Vec<u8> = Vec::new();
    v.push(70);
    v.push(82);
    v.push(67);
    v.push(95);
    v.push(82);
    v.push(101);
    v.push(97);
    v.push(100);
    v.push(84);
    v.push(67);
    v.push(80);
    v.push(83);
    v.push(112);
    v.push(101);
    v.push(101);
    v.push(100);
    proof {
        assert(v@ =~= k_t_read_tcp_speed());
    }
    v
}

pub proof fn k_t_read_tcp_speed_ok()
    ensures
        str_ok(k_t_read_tcp_speed()),
        k_t_read_tcp_speed().len() == 16,
{
    let s = k_t_read_tcp_speed();
    assert forall|i: int| 0 <= i < s.len() implies str_byte_ok(s[i]) by {
        if i == 0 {
            assert(s[0] == 70);
        } else if i == 1 {
            assert(s[1] == 82);
        } else if i == 2 {
            assert(s[2] == 67);
        } else if i == 3 {
            assert(s[3] == 95);
        } else if i == 4 {
            assert(s[4] == 82);
        } else if i == 5 {
            assert(s[5] == 101);
        } else if i == 6 {
            assert(s[6] == 97);
        } else if i == 7 {
            assert(s[7] == 100);
        } else if i == 8 {
            assert(s[8] == 84);
        } else if i == 9 {
            assert(s[9] == 67);
        } else if i == 10 {
            assert(s[10] == 80);
        } else if i == 11 {
            assert(s[11] == 83);
        } else if i == 12 {
            assert(s[12] == 112);
        } else if i == 13 {
            assert(s[13] == 101);
        } else if i == 14 {
            assert(s[14] == 101);
        } else if i == 15 {
            assert(s[15] == 100);
        } else {
        }
    }
}

/// `"FRC_ReadUFrameData"`
pub open spec fn k_t_read_uframe_data() -> Seq<u8> {
    seq![70u8, 82, 67, 95, 82, 101, 97, 100, 85, 70, 114, 97, 109, 101, 68, 97, 116, 97]
}

pub fn key_t_read_uframe_data() -> (v: Vec<u8>)
    ensures
        v@ == k_t_read_uframe_data(),
{
    let mut v: Vec<u8> = Vec::new();
    v.push(70);
    v.push(82);
    v.push(67);
    v.push(95);
    v.push(82);
    v.push(101);
    v.push(97);
    v.push(100);
    v.push(85);
    v.push(70);
    v.push(114);
    v.push(97);
    v.push(109);
    v.push(101);
    v.push(68);
    v.push(97);
    v.push(116);
    v.push(97);
    proof {
        assert(v@ =~= k_t_read_uframe_data());
    }
    v
}

pub proof fn k_t_read_uframe_data_ok()
    ensures
        str_ok(k_t_read_uframe_data()),
        k_t_read_uframe_data().len() == 18,
{
    let s = k_t_read_uframe_data();
    assert forall|i: int| 0 <= i < s.len() implies str_byte_ok(s[i]) by {
        if i == 0 {
            assert(s[0] == 70);
        } else if i == 1 {
            assert(s[1] == 82);
        } else if i == 2 {
            assert(s[2] == 67);
        } else if i == 3 {
            assert(s[3] == 95);
        } else if i == 4 {
            assert(s[4] == 82);
        } else if i == 5 {
            assert(s[5] == 101);
        } else if i == 6 {
            assert(s[6] == 97);
        } else if i == 7 {
            assert(s[7] == 100);
        } else if i == 8 {
            assert(s[8] == 85);
        } else if i == 9 {
            assert(s[9] == 70);
        } else if i == 10 {
            assert(s[10] == 114);
        } else if i == 11 {
            assert(s[11] == 97);
        } else if i == 12 {
            assert(s[12] == 109);
        } else if i == 13 {
            assert(s[13] == 101);
        } else if i == 14 {
            assert(s[14] == 68);
        } else if i == 15 {
            assert(s[15] == 97);
        } else if i == 16 {
            assert(s[16] == 116);
        } else if i == 17 {
            assert(s[17] == 97);
        } else {
        }
    }
}

/// `"FRC_ReadUToolData"`
pub open spec fn k_t_read_utool_data() -> Seq<u8> {
    seq![70u8, 82, 67, 95, 82, 101, 97, 100, 85, 84, 111, 111, 108, 68, 97, 116, 97]
}

pub fn key_t_read_utool_data() -> (v: Vec<u8>)
    ensures
        v@ == k_t_read_utool_data(),
{
    let mut v: Vec<u8> = Vec::new();
    v.push(70);
    v.push(82);
    v.push(67);
    v.push(95);
    v.push(82);
    v.push(101);
    v.push(97);
    v.push(100);
    v.push(85);
    v.push(84);
    v.push(111);
    v.push(111);
    v.push(108);
    v.push(68);
    v.push(97);
    v.push(116);
    v.push(97);
    proof {
        assert(v@ =~= k_t_read_utool_data());
    }
    v
}

pub proof fn k_t_read_utool_data_ok()
    ensures
        str_ok(k_t_read_utool_data()),
        k_t_read_utool_data().len() == 17,
{
    let s = k_t_read_utool_data();
    assert forall|i: int| 0 <= i < s.len() implies str_byte_ok(s[i]) by {
        if i == 0 {
            assert(s[0] == 70);
        } else if i == 1 {
            assert(s[1] == 82);
        } else if i == 2 {
            assert(s[2] == 67);
        } else if i == 3 {
            assert(s[3] == 95);
        } else if i == 4 {
            assert(s[4] == 82);
        } else if i == 5 {
            assert(s[5] == 101);
        } else if i == 6 {
            assert(s[6] == 97);
        } else if i == 7 {
            assert(s[7] == 100);
        } else if i == 8 {
            assert(s[8] == 85);
        } else if i == 9 {
            assert(s[9] == 84);
        } else if i == 10 {
            assert(s[10] == 111);
        } else if i == 11 {
            assert(s[11] == 111);
        } else if i == 12 {
            assert(s[12] == 108);
        } else if i == 13 {
            assert(s[13] == 68);
        } else if i == 14 {
            assert(s[14] == 97);
        } else if i == 15 {
            assert(s[15] == 116);
        } else if i == 16 {
            assert(s[16] == 97);
        } else {
        }
    }
}

/// `"FRC_Reset"`
pub open spec fn k_t_reset() -> Seq<u8> {
    seq![70u8, 82, 67, 95, 82, 101, 115, 101, 116]
}

pub fn key_t_reset() -> (v: Vec<u8>)
    ensures
        v@ == k_t_reset(),
{
    let mut v: Vec<u8> = Vec::new();
    v.push(70);
    v.push(82);
    v.push(67);
    v.push(95);
    v.push(82);
    v.push(101);
    v.push(115);
    v.push(101);
    v.push(116);
    proof {
        assert(v@ =~= k_t_reset());
    }
    v
}

pub proof fn k_t_reset_ok()
    ensures
        str_ok(k_t_reset()),
        k_t_reset().len() == 9,
{
    let s = k_t_reset();
    assert forall|i: int| 0 <= i < s.len() implies str_byte_ok(s[i]) by {
        if i == 0 {
            assert(s[0] == 70);
        } else if i == 1 {
            assert(s[1] == 82);
        } else if i == 2 {
            assert(s[2] == 67);
        } else if i == 3 {
            assert(s[3] == 95);
        } else if i == 4 {
            assert(s[4] == 82);
        } else if i == 5 {
            assert(s[5] == 101);
        } else if i == 6 {
            assert(s[6] == 115);
        } else if i == 7 {
            assert(s[7] == 101);
        } else if i == 8 {
            assert(s[8] == 116);
        } else {
        }
    }
}

/// `"FRC_SetOverride"`
pub open spec fn k_t_set_override() -> Seq<u8> {
    seq![70u8, 82, 67, 95, 83, 101, 116, 79, 118, 101, 114, 114, 105, 100, 101]
}

pub fn key_t_set_override() -> (v: Vec<u8>)
    ensures
        v@ == k_t_set_override(),
{
    let mut v: Vec<u8> = Vec::new();
    v.push(70);
    v.push(82);
    v.push(67);
    v.push(95);
    v.push(83);
    v.push(101);
    v.push(116);
    v.push(79);
    v.push(118);
    v.push(101);
    v.push(114);
    v.push(114);
    v.push(105);
    v.push(100);
    v.push(101);
    proof {
        assert(v@ =~= k_t_set_override());
    }
    v
}

pub proof fn k_t_set_override_ok()
    ensures
        str_ok(k_t_set_override()),
        k_t_set_override().len() == 15,
{
    let s = k_t_set_override();
    assert forall|i: int| 0 <= i < s.len() implies str_byte_ok(s[i]) by {
        if i == 0 {
            assert(s[0] == 70);
        } else if i == 1 {
            assert(s[1] == 82);
        } else if i == 2 {
            assert(s[2] == 67);
        } else if i == 3 {
            assert(s[3] == 95);
        } else if i == 4 {
            assert(s[4] == 83);
        } else if i == 5 {
            assert(s[5] == 101);
        } else if i == 6 {
            assert(s[6] == 116);
        } else if i == 7 {
            assert(s[7] == 79);
        } else if i == 8 {
            assert(s[8] == 118);
        } else if i == 9 {
            assert(s[9] == 101);
        } else if i == 10 {
            assert(s[10] == 114);
        } else if i == 11 {
            assert(s[11] == 114);
        } else if i == 12 {
            assert(s[12] == 105);
        } else if i == 13 {
            assert(s[13] == 100);
        } else if i == 14 {
            assert(s[14] == 101);
        } else {
        }
    }
}

/// `"FRC_SetPayLoad"`
pub open spec fn k_t_set_payload() -> Seq<u8> {
    seq![70u8, 82, 67, 95, 83, 101, 116, 80, 97, 121, 76, 111, 97, 100]
}

pub fn key_t_set_payload() -> (v: Vec<u8>)
    ensures
        v@ == k_t_set_payload(),
{
    let mut v: Vec<u8> = Vec::new();
    v.push(70);
    v.push(82);
    v.push(67);
    v.push(95);
    v.push(83);
    v.push(101);
    v.push(116);
    v.push(80);
    v.push(97);
    v.push(121);
    v.push(76);
    v.push(111);
    v.push(97);
    v.push(100);
    proof {
        assert(v@ =~= k_t_set_payload());
    }
    v
}

pub proof fn k_t_set_payload_ok()
    ensures
        str_ok(k_t_set_payload()),
        k_t_set_payload().len() == 14,
{
    let s = k_t_set_payload();
    assert forall|i: int| 0 <= i < s.len() implies str_byte_ok(s[i]) by {
        if i == 0 {
            assert(s[0] == 70);
        } else if i == 1 {
            assert(s[1] == 82);
        } else if i == 2 {
            assert(s[2] == 67);
        } else if i == 3 {
            assert(s[3] == 95);
        } else if i == 4 {
            assert(s[4] == 83);
        } else if i == 5 {
            assert(s[5] == 101);
        } else if i == 6 {
            assert(s[6] == 116);
        } else if i == 7 {
            assert(s[7] == 80);
        } else if i == 8 {
            assert(s[8] == 97);
        } else if i == 9 {
            assert(s[9] == 121);
        } else if i == 10 {
            assert(s[10] == 76);
        } else if i == 11 {
            assert(s[11] == 111);
        } else if i == 12 {
            assert(s[12] == 97);
        } else if i == 13 {
            assert(s[13] == 100);
        } else {
        }
    }
}

/// `"FRC_SetUFrame"`
pub open spec fn k_t_set_uframe() -> Seq<u8> {
    seq![70u8, 82, 67, 95, 83, 101, 116, 85, 70, 114, 97, 109, 101]
}

pub fn key_t_set_uframe() -> (v: Vec<u8>)
    ensures
        v@ == k_t_set_uframe(),
{
    let mut v: Vec<u8> = Vec::new();
    v.push(70);
    v.push(82);
    v.push(67);
    v.push(95);
    v.push(83);
    v.push(101);
    v.push(116);
    v.push(85);
    v.push(70);
    v.push(114);
    v.push(97);
    v.push(109);
    v.push(101);
    proof {
        assert(v@ =~= k_t_set_uframe());
    }
    v
}

pub proof fn k_t_set_uframe_ok()
    ensures
        str_ok(k_t_set_uframe()),
        k_t_set_uframe().len() == 13,
{
    let s = k_t_set_uframe();
    assert forall|i: int| 0 <= i < s.len() implies str_byte_ok(s[i]) by {
        if i == 0 {
            assert(s[0] == 70);
        } else if i == 1 {
            assert(s[1] == 82);
        } else if i == 2 {
            assert(s[2] == 67);
        } else if i == 3 {
            assert(s[3] == 95);
        } else if i == 4 {
            assert(s[4] == 83);
        } else if i == 5 {
            assert(s[5] == 101);
        } else if i == 6 {
            assert(s[6] == 116);
        } else if i == 7 {
            assert(s[7] == 85);
        } else if i == 8 {
            assert(s[8] == 70);
        } else if i == 9 {
            assert(s[9] == 114);
        } else if i == 10 {
            assert(s[10] == 97);
        } else if i == 11 {
            assert(s[11] == 109);
        } else if i == 12 {
            assert(s[12] == 101);
        } else {
        }
    }
}

/// `"FRC_SetUFrameUTool"`
pub open spec fn k_t_set_uframe_utool() -> Seq<u8> {
    seq![70u8, 82, 67, 95, 83, 101, 116, 85, 70, 114, 97, 109, 101, 85, 84, 111, 111, 108]
}

pub fn key_t_set_uframe_utool() -> (v: Vec<u8>)
    ensures
        v@ == k_t_set_uframe_utool(),
{
    let mut v: Vec<u8> = Vec::new();
    v.push(70);
    v.push(82);
    v.push(67);
    v.push(95);
    v.push(83);
    v.push(101);
    v.push(116);
    v.push(85);
    v.push(70);
    v.push(114);
    v.push(97);
    v.push(109);
    v.push(101);
    v.push(85);
    v.push(84);
    v.push(111);
    v.push(111);
    v.push(108);
    proof {
        assert(v@ =~= k_t_set_uframe_utool());
    }
    v
}

pub proof fn k_t_set_uframe_utool_ok()
    ensures
        str_ok(k_t_set_uframe_utool()),
        k_t_set_uframe_utool().len() == 18,
{
    let s = k_t_set_uframe_utool();
    assert forall|i: int| 0 <= i < s.len() implies str_byte_ok(s[i]) by {
        if i == 0 {
            assert(s[0] == 70);
        } else if i == 1 {
            assert(s[1] == 82);
        } else if i == 2 {
            assert(s[2] == 67);
        } else if i == 3 {
            assert(s[3] == 95);
        } else if i == 4 {
            assert(s[4] == 83);
        } else if i == 5 {
            assert(s[5] == 101);
        } else if i == 6 {
            assert(s[6] == 116);
        } else if i == 7 {
            assert(s[7] == 85);
        } else if i == 8 {
            assert(s[8] == 70);
        } else if i == 9 {
            assert(s[9] == 114);
        } else if i == 10 {
            assert(s[10] == 97);
        } else if i == 11 {
            assert(s[11] == 109);
        } else if i == 12 {
            assert(s[12] == 101);
        } else if i == 13 {
            assert(s[13] == 85);
        } else if i == 14 {
            assert(s[14] == 84);
        } else if i == 15 {
            assert(s[15] == 111);
        } else if i == 16 {
            assert(s[16] == 111);
        } else if i == 17 {
            assert(s[17] == 108);
        } else {
        }
    }
}

/// `"FRC_SetUTool"`
pub open spec fn k_t_set_utool() -> Seq<u8> {
    seq![70u8, 82, 67, 95, 83, 101, 116, 85, 84, 111, 111, 108]
}

pub fn key_t_set_utool() -> (v: Vec<u8>)
    ensures
        v@ == k_t_set_utool(),
{
    let mut v: Vec<u8> = Vec::new();
    v.push(70);
    v.push(82);
    v.push(67);
    v.push(95);
    v.push(83);
    v.push(101);
    v.push(116);
    v.push(85);
    v.push(84);
    v.push(111);
    v.push(111);
    v.push(108);
    proof {
        assert(v@ =~= k_t_set_utool());
    }
    v
}

pub proof fn k_t_set_utool_ok()
    ensures
        str_ok(k_t_set_utool()),
        k_t_set_utool().len() == 12,
{
    let s = k_t_set_utool();
    assert forall|i: int| 0 <= i < s.len() implies str_byte_ok(s[i]) by {
        if i == 0 {
            assert(s[0] == 70);
        } else if i == 1 {
            assert(s[1] == 82);
        } else if i == 2 {
            assert(s[2] == 67);
        } else if i == 3 {
            assert(s[3] == 95);
        } else if i == 4 {
            assert(s[4] == 83);
        } else if i == 5 {
            assert(s[5] == 101);
        } else if i == 6 {
            assert(s[6] == 116);
        } else if i == 7 {
            assert(s[7] == 85);
        } else if i == 8 {
            assert(s[8] == 84);
        } else if i == 9 {
            assert(s[9] == 111);
        } else if i == 10 {
            assert(s[10] == 111);
        } else if i == 11 {
            assert(s[11] == 108);
        } else {
        }
    }
}

/// `"FRC_SystemFault"`
pub open spec fn k_t_system_fault() -> Seq<u8> {
    seq![70u8, 82, 67, 95, 83, 121, 115, 116, 101, 109, 70, 97, 117, 108, 116]
}

pub fn key_t_system_fault() -> (v: Vec<u8>)
    ensures
        v@ == k_t_system_fault(),
{
    let mut v: Vec<u8> = Vec::new();
    v.push(70);
    v.push(82);
    v.push(67);
    v.push(95);
    v.push(83);
    v.push(121);
    v.push(115);
    v.push(116);
    v.push(101);
    v.push(109);
    v.push(70);
    v.push(97);
    v.push(117);
    v.push(108);
    v.push(116);
    proof {
        assert(v@ =~= k_t_system_fault());
    }
    v
}

pub proof fn k_t_system_fault_ok()
    ensures
        str_ok(k_t_system_fault()),
        k_t_system_fault().len() == 15,
{
    let s = k_t_system_fault();
    assert forall|i: int| 0 <= i < s.len() implies str_byte_ok(s[i]) by {
        if i == 0 {
            assert(s[0] == 70);
        } else if i == 1 {
            assert(s[1] == 82);
        } else if i == 2 {
            assert(s[2] == 67);
        } else if i == 3 {
            assert(s[3] == 95);
        } else if i == 4 {
            assert(s[4] == 83);
        } else if i == 5 {
            assert(s[5] == 121);
        } else if i == 6 {
            assert(s[6] == 115);
        } else if i == 7 {
            assert(s[7] == 116);
        } else if i == 8 {
            assert(s[8] == 101);
        } else if i == 9 {
            assert(s[9] == 109);
        } else if i == 10 {
            assert(s[10] == 70);
        } else if i == 11 {
            assert(s[11] == 97);
        } else if i == 12 {
            assert(s[12] == 117);
        } else if i == 13 {
            assert(s[13] == 108);
        } else if i == 14 {
            assert(s[14] == 116);
        } else {
        }
    }
}

/// `"FRC_Terminate"`
pub open spec fn k_t_terminate() -> Seq<u8> {
    seq![70u8, 82, 67, 95, 84, 101, 114, 109, 105, 110, 97, 116, 101]
}

pub fn key_t_terminate() -> (v: Vec<u8>)
    ensures
        v@ == k_t_terminate(),
{
    let mut v: Vec<u8> = Vec::new();
    v.push(70);
    v.push(82);
    v.push(67);
    v.push(95);
    v.push(84);
    v.push(101);
    v.push(114);
    v.push(109);
    v.push(105);
    v.push(110);
    v.push(97);
    v.push(116);
    v.push(101);
    proof {
        assert(v@ =~= k_t_terminate());
    }
    v
}

pub proof fn k_t_terminate_ok()
    ensures
        str_ok(k_t_terminate()),
        k_t_terminate().len() == 13,
{
    let s = k_t_terminate();
    assert forall|i: int| 0 <= i < s.len() implies str_byte_ok(s[i]) by {
        if i == 0 {
            assert(s[0] == 70);
        } else if i == 1 {
            assert(s[1] == 82);
        } else if i == 2 {
            assert(s[2] == 67);
        } else if i == 3 {
            assert(s[3] == 95);
        } else if i == 4 {
            assert(s[4] == 84);
        } else if i == 5 {
            assert(s[5] == 101);
        } else if i == 6 {
            assert(s[6] == 114);
        } else if i == 7 {
            assert(s[7] == 109);
        } else if i == 8 {
            assert(s[8] == 105);
        } else if i == 9 {
            assert(s[9] == 110);
        } else if i == 10 {
            assert(s[10] == 97);
        } else if i == 11 {
            assert(s[11] == 116);
        } else if i == 12 {
            assert(s[12] == 101);
        } else {
        }
    }
}

/// `"FRC_WaitDIN"`
pub open spec fn k_t_wait_din() -> Seq<u8> {
    seq![70u8, 82, 67, 95, 87, 97, 105, 116, 68, 73, 78]
}

pub fn key_t_wait_din() -> (v: Vec<u8>)
    ensures
        v@ == k_t_wait_din(),
{
    let mut v: Vec<u8> = Vec::new();
    v.push(70);
    v.push(82);
    v.push(67);
    v.push(95);
    v.push(87);
    v.push(97);
    v.push(105);
    v.push(116);
    v.push(68);
    v.push(73);
    v.push(78);
    proof {
        assert(v@ =~= k_t_wait_din());
    }
    v
}

pub proof fn k_t_wait_din_ok()
    ensures
        str_ok(k_t_wait_din()),
        k_t_wait_din().len() == 11,
{
    let s = k_t_wait_din();
    assert forall|i: int| 0 <= i < s.len() implies str_byte_ok(s[i]) by {
        if i == 0 {
            assert(s[0] == 70);
        } else if i == 1 {
            assert(s[1] == 82);
        } else if i == 2 {
            assert(s[2] == 67);
        } else if i == 3 {
            assert(s[3] == 95);
        } else if i == 4 {
            assert(s[4] == 87);
        } else if i == 5 {
            assert(s[5] == 97);
        } else if i == 6 {
            assert(s[6] == 105);
        } else if i == 7 {
            assert(s[7] == 116);
        } else if i == 8 {
            assert(s[8] == 68);
        } else if i == 9 {
            assert(s[9] == 73);
        } else if i == 10 {
            assert(s[10] == 78);
        } else {
        }
    }
}

/// `"FRC_WaitTime"`
pub open spec fn k_t_wait_time() -> Seq<u8> {
    seq![70u8, 82, 67, 95, 87, 97, 105, 116, 84, 105, 109, 101]
}

pub fn key_t_wait_time() -> (v: Vec<u8>)
    ensures
        v@ == k_t_wait_time(),
{
    let mut v: Vec<u8> = Vec::new();
    v.push(70);
    v.push(82);
    v.push(67);
    v.push(95);
    v.push(87);
    v.push(97);
    v.push(105);
    v.push(116);
    v.push(84);
    v.push(105);
    v.push(109);
    v.push(101);
    proof {
        assert(v@ =~= k_t_wait_time());
    }
    v
}

pub proof fn k_t_wait_time_ok()
    ensures
        str_ok(k_t_wait_time()),
        k_t_wait_time().len() == 12,
{
    let s = k_t_wait_time();
    assert forall|i: int| 0 <= i < s.len() implies str_byte_ok(s[i]) by {
        if i == 0 {
            assert(s[0] == 70);
        } else if i == 1 {
            assert(s[1] == 82);
        } else if i == 2 {
            assert(s[2] == 67);
        } else if i == 3 {
            assert(s[3] == 95);
        } else if i == 4 {
            assert(s[4] == 87);
        } else if i == 5 {
            assert(s[5] == 97);
        } else if i == 6 {
            assert(s[6] == 105);
        } else if i == 7 {
            assert(s[7] == 116);
        } else if i == 8 {
            assert(s[8] == 84);
        } else if i == 9 {
            assert(s[9] == 105);
        } else if i == 10 {
            assert(s[10] == 109);
        } else if i == 11 {
            assert(s[11] == 101);
        } else {
        }
    }
}

/// `"FRC_WriteDOUT"`
pub open spec fn k_t_write_dout() -> Seq<u8> {
    seq![70u8, 82, 67, 95, 87, 114, 105, 116, 101, 68, 79, 85, 84]
}

pub fn key_t_write_dout() -> (v: Vec<u8>)
    ensures
        v@ == k_t_write_dout(),
{
    let mut v: Vec<u8> = Vec::new();
    v.push(70);
    v.push(82);
    v.push(67);
    v.push(95);
    v.push(87);
    v.push(114);
    v.push(105);
    v.push(116);
    v.push(101);
    v.push(68);
    v.push(79);
    v.push(85);
    v.push(84);
    proof {
        assert(v@ =~= k_t_write_dout());
    }
    v
}

pub proof fn k_t_write_dout_ok()
    ensures
        str_ok(k_t_write_dout()),
        k_t_write_dout().len() == 13,
{
    let s = k_t_write_dout();
    assert forall|i: int| 0 <= i < s.len() implies str_byte_ok(s[i]) by {
        if i == 0 {
            assert(s[0] == 70);
        } else if i == 1 {
            assert(s[1] == 82);
        } else if i == 2 {
            assert(s[2] == 67);
        } else if i == 3 {
            assert(s[3] == 95);
        } else if i == 4 {
            assert(s[4] == 87);
        } else if i == 5 {
            assert(s[5] == 114);
        } else if i == 6 {
            assert(s[6] == 105);
        } else if i == 7 {
            assert(s[7] == 116);
        } else if i == 8 {
            assert(s[8] == 101);
        } else if i == 9 {
            assert(s[9] == 68);
        } else if i == 10 {
            assert(s[10] == 79);
        } else if i == 11 {
            assert(s[11] == 85);
        } else if i == 12 {
            assert(s[12] == 84);
        } else {
        }
    }
}

/// `"FRC_WritePositionRegister"`
pub open spec fn k_t_write_position_register() -> Seq<u8> {
    seq![70u8, 82, 67, 95, 87, 114, 105, 116, 101, 80, 111, 115, 105, 116, 105, 111, 110, 82, 101, 103, 105, 115, 116, 101, 114]
}

pub fn key_t_write_position_register() -> (v: Vec<u8>)
    ensures
        v@ == k_t_write_position_register(),
{
    let mut v: Vec<u8> = Vec::new();
    v.push(70);
    v.push(82);
    v.push(67);
    v.push(95);
    v.push(87);
    v.push(114);
    v.push(105);
    v.push(116);
    v.push(101);
    v.push(80);
    v.push(111);
    v.push(115);
    v.push(105);
    v.push(116);
    v.push(105);
    v.push(111);
    v.push(110);
    v.push(82);
    v.push(101);
    v.push(103);
    v.push(105);
    v.push(115);
    v.push(116);
    v.push(101);
    v.push(114);
    proof {
        assert(v@ =~= k_t_write_position_register());
    }
    v
}

pub proof fn k_t_write_position_register_ok()
    ensures
        str_ok(k_t_write_position_register()),
        k_t_write_position_register().len() == 25,
{
    let s = k_t_write_position_register();
    assert forall|i: int| 0 <= i < s.len() implies str_byte_ok(s[i]) by {
        if i == 0 {
            assert(s[0] == 70);
        } else if i == 1 {
            assert(s[1] == 82);
        } else if i == 2 {
            assert(s[2] == 67);
        } else if i == 3 {
            assert(s[3] == 95);
        } else if i == 4 {
            assert(s[4] == 87);
        } else if i == 5 {
            assert(s[5] == 114);
        } else if i == 6 {
            assert(s[6] == 105);
        } else if i == 7 {
            assert(s[7] == 116);
        } else if i == 8 {
            assert(s[8] == 101);
        } else if i == 9 {
            assert(s[9] == 80);
        } else if i == 10 {
            assert(s[10] == 111);
        } else if i == 11 {
            assert(s[11] == 115);
        } else if i == 12 {
            assert(s[12] == 105);
        } else if i == 13 {
            assert(s[13] == 116);
        } else if i == 14 {
            assert(s[14] == 105);
        } else if i == 15 {
            assert(s[15] == 111);
        } else if i == 16 {
            assert(s[16] == 110);
        } else if i == 17 {
            assert(s[17] == 82);
        } else if i == 18 {
            assert(s[18] == 101);
        } else if i == 19 {
            assert(s[19] == 103);
        } else if i == 20 {
            assert(s[20] == 105);
        } else if i == 21 {
            assert(s[21] == 115);
        } else if i == 22 {
            assert(s[22] == 116);
        } else if i == 23 {
            assert(s[23] == 101);
        } else if i == 24 {
            assert(s[24] == 114);
        } else {
        }
    }
}

/// `"FrcWritePositionRegister"` — the controller spells the
/// write-position-register request without the usual `FRC_` prefix,
/// unlike its response; the asymmetry is the wire protocol's, kept here
/// for bit-exact compatibility.
pub open spec fn k_t_write_position_register_req() -> Seq<u8> {
    seq![70u8, 114, 99, 87, 114, 105, 116, 101, 80, 111, 115, 105, 116, 105, 111, 110, 82, 101, 103, 105, 115, 116, 101, 114]
}

pub fn key_t_write_position_register_req() -> (v: Vec<u8>)
    ensures
        v@ == k_t_write_position_register_req(),
{
    let mut v: Vec<u8> = Vec::new();
    v.push(70);
    v.push(114);
    v.push(99);
    v.push(87);
    v.push(114);
    v.push(105);
    v.push(116);
    v.push(101);
    v.push(80);
    v.push(111);
    v.push(115);
    v.push(105);
    v.push(116);
    v.push(105);
    v.push(111);
    v.push(110);
    v.push(82);
    v.push(101);
    v.push(103);
    v.push(105);
    v.push(115);
    v.push(116);
    v.push(101);
    v.push(114);
    proof {
        assert(v@ =~= k_t_write_position_register_req());
    }
    v
}

pub proof fn k_t_write_position_register_req_ok()
    ensures
        str_ok(k_t_write_position_register_req()),
        k_t_write_position_register_req().len() == 24,
{
    let s = k_t_write_position_register_req();
    assert forall|i: int| 0 <= i < s.len() implies str_byte_ok(s[i]) by {
        if i == 0 {
            assert(s[0] == 70);
        } else if i == 1 {
            assert(s[1] == 114);
        } else if i == 2 {
            assert(s[2] == 99);
        } else if i == 3 {
            assert(s[3] == 87);
        } else if i == 4 {
            assert(s[4] == 114);
        } else if i == 5 {
            assert(s[5] == 105);
        } else if i == 6 {
            assert(s[6] == 116);
        } else if i == 7 {
            assert(s[7] == 101);
        } else if i == 8 {
            assert(s[8] == 80);
        } else if i == 9 {
            assert(s[9] == 111);
        } else if i == 10 {
            assert(s[10] == 115);
        } else if i == 11 {
            assert(s[11] == 105);
        } else if i == 12 {
            assert(s[12] == 116);
        } else if i == 13 {
            assert(s[13] == 105);
        } else if i == 14 {
            assert(s[14] == 111);
        } else if i == 15 {
            assert(s[15] == 110);
        } else if i == 16 {
            assert(s[16] == 82);
        } else if i == 17 {
            assert(s[17] == 101);
        } else if i == 18 {
            assert(s[18] == 103);
        } else if i == 19 {
            assert(s[19] == 105);
        } else if i == 20 {
            assert(s[20] == 115);
        } else if i == 21 {
            assert(s[21] == 116);
        } else if i == 22 {
            assert(s[22] == 101);
        } else if i == 23 {
            assert(s[23] == 114);
        } else {
        }
    }
}

/// `"FRC_WriteUFrameData"`
pub open spec fn k_t_write_uframe_data() -> Seq<u8> {
    seq![70u8, 82, 67, 95, 87, 114, 105, 116, 101, 85, 70, 114, 97, 109, 101, 68, 97, 116, 97]
}

pub fn key_t_write_uframe_data() -> (v: Vec<u8>)
    ensures
        v@ == k_t_write_uframe_data(),
{
    let mut v: Vec<u8> = Vec::new();
    v.push(70);
    v.push(82);
    v.push(67);
    v.push(95);
    v.push(87);
    v.push(114);
    v.push(105);
    v.push(116);
    v.push(101);
    v.push(85);
    v.push(70);
    v.push(114);
    v.push(97);
    v.push(109);
    v.push(101);
    v.push(68);
    v.push(97);
    v.push(116);
    v.push(97);
    proof {
        assert(v@ =~= k_t_write_uframe_data());
    }
    v
}

pub proof fn k_t_write_uframe_data_ok()
    ensures
        str_ok(k_t_write_uframe_data()),
        k_t_write_uframe_data().len() == 19,
{
    let s = k_t_write_uframe_data();
    assert forall|i: int| 0 <= i < s.len() implies str_byte_ok(s[i]) by {
        if i == 0 {
            assert(s[0] == 70);
        } else if i == 1 {
            assert(s[1] == 82);
        } else if i == 2 {
            assert(s[2] == 67);
        } else if i == 3 {
            assert(s[3] == 95);
        } else if i == 4 {
            assert(s[4] == 87);
        } else if i == 5 {
            assert(s[5] == 114);
        } else if i == 6 {
            assert(s[6] == 105);
        } else if i == 7 {
            assert(s[7] == 116);
        } else if i == 8 {
            assert(s[8] == 101);
        } else if i == 9 {
            assert(s[9] == 85);
        } else if i == 10 {
            assert(s[10] == 70);
        } else if i == 11 {
            assert(s[11] == 114);
        } else if i == 12 {
            assert(s[12] == 97);
        } else if i == 13 {
            assert(s[13] == 109);
        } else if i == 14 {
            assert(s[14] == 101);
        } else if i == 15 {
            assert(s[15] == 68);
        } else if i == 16 {
            assert(s[16] == 97);
        } else if i == 17 {
            assert(s[17] == 116);
        } else if i == 18 {
            assert(s[18] == 97);
        } else {
        }
    }
}

/// `"FRC_WriteUToolData"`
pub open spec fn k_t_write_utool_data() -> Seq<u8> {
    seq![70u8, 82, 67, 95, 87, 114, 105, 116, 101, 85, 84, 111, 111, 108, 68, 97, 116, 97]
}

pub fn key_t_write_utool_data() -> (v: Vec<u8>)
    ensures
        v@ == k_t_write_utool_data(),
{
    let mut v: Vec<u8> = Vec::new();
    v.push(70);
    v.push(82);
    v.push(67);
    v.push(95);
    v.push(87);
    v.push(114);
    v.push(105);
    v.push(116);
    v.push(101);
    v.push(85);
    v.push(84);
    v.push(111);
    v.push(111);
    v.push(108);
    v.push(68);
    v.push(97);
    v.push(116);
    v.push(97);
    proof {
        assert(v@ =~= k_t_write_utool_data());
    }
    v
}

pub proof fn k_t_write_utool_data_ok()
    ensures
        str_ok(k_t_write_utool_data()),
        k_t_write_utool_data().len() == 18,
{
    let s = k_t_write_utool_data();
    assert forall|i: int| 0 <= i < s.len() implies str_byte_ok(s[i]) by {
        if i == 0 {
            assert(s[0] == 70);
        } else if i == 1 {
            assert(s[1] == 82);
        } else if i == 2 {
            assert(s[2] == 67);
        } else if i == 3 {
            assert(s[3] == 95);
        } else if i == 4 {
            assert(s[4] == 87);
        } else if i == 5 {
            assert(s[5] == 114);
        } else if i == 6 {
            assert(s[6] == 105);
        } else if i == 7 {
            assert(s[7] == 116);
        } else if i == 8 {
            assert(s[8] == 101);
        } else if i == 9 {
            assert(s[9] == 85);
        } else if i == 10 {
            assert(s[10] == 84);
        } else if i == 11 {
            assert(s[11] == 111);
        } else if i == 12 {
            assert(s[12] == 111);
        } else if i == 13 {
            assert(s[13] == 108);
        } else if i == 14 {
            assert(s[14] == 68);
        } else if i == 15 {
            assert(s[15] == 97);
        } else if i == 16 {
            assert(s[16] == 116);
        } else if i == 17 {
            assert(s[17] == 97);
        } else {
        }
    }
}

/// `"Command"`
pub open spec fn k_tag_command() -> Seq<u8> {
    seq![67u8, 111, 109, 109, 97, 110, 100]
}

pub fn key_tag_command() -> (v: Vec<u8>)
    ensures
        v@ == k_tag_command(),
{
    let mut v: Vec<u8> = Vec::new();
    v.push(67);
    v.push(111);
    v.push(109);
    v.push(109);
    v.push(97);
    v.push(110);
    v.push(100);
    proof {
        assert(v@ =~= k_tag_command());
    }
    v
}

pub proof fn k_tag_command_ok()
    ensures
        str_ok(k_tag_command()),
        k_tag_command().len() == 7,
{
    let s = k_tag_command();
    assert forall|i: int| 0 <= i < s.len() implies str_byte_ok(s[i]) by {
        if i == 0 {
            assert(s[0] == 67);
        } else if i == 1 {
            assert(s[1] == 111);
        } else if i == 2 {
            assert(s[2] == 109);
        } else if i == 3 {
            assert(s[3] == 109);
        } else if i == 4 {
            assert(s[4] == 97);
        } else if i == 5 {
            assert(s[5] == 110);
        } else if i == 6 {
            assert(s[6] == 100);
        } else {
        }
    }
}

/// `"Communication"`
pub open spec fn k_tag_communication() -> Seq<u8> {
    seq![67u8, 111, 109, 109, 117, 110, 105, 99, 97, 116, 105, 111, 110]
}

pub fn key_tag_communication() -> (v: Vec<u8>)
    ensures
        v@ == k_tag_communication(),
{
    let mut v: Vec<u8> = Vec::new();
    v.push(67);
    v.push(111);
    v.push(109);
    v.push(109);
    v.push(117);
    v.push(110);
    v.push(105);
    v.push(99);
    v.push(97);
    v.push(116);
    v.push(105);
    v.push(111);
    v.push(110);
    proof {
        assert(v@ =~= k_tag_communication());
    }
    v
}

pub proof fn k_tag_communication_ok()
    ensures
        str_ok(k_tag_communication()),
        k_tag_communication().len() == 13,
{
    let s = k_tag_communication();
    assert forall|i: int| 0 <= i < s.len() implies str_byte_ok(s[i]) by {
        if i == 0 {
            assert(s[0] == 67);
        } else if i == 1 {
            assert(s[1] == 111);
        } else if i == 2 {
            assert(s[2] == 109);
        } else if i == 3 {
            assert(s[3] == 109);
        } else if i == 4 {
            assert(s[4] == 117);
        } else if i == 5 {
            assert(s[5] == 110);
        } else if i == 6 {
            assert(s[6] == 105);
        } else if i == 7 {
            assert(s[7] == 99);
        } else if i == 8 {
            assert(s[8] == 97);
        } else if i == 9 {
            assert(s[9] == 116);
        } else if i == 10 {
            assert(s[10] == 105);
        } else if i == 11 {
            assert(s[11] == 111);
        } else if i == 12 {
            assert(s[12] == 110);
        } else {
        }
    }
}

/// `"Instruction"`
pub open spec fn k_tag_instruction() -> Seq<u8> {
    seq![73u8, 110, 115, 116, 114, 117, 99, 116, 105, 111, 110]
}

pub fn key_tag_instruction() -> (v: Vec<u8>)
    ensures
        v@ == k_tag_instruction(),
{
    let mut v: Vec<u8> = Vec::new();
    v.push(73);
    v.push(110);
    v.push(115);
    v.push(116);
    v.push(114);
    v.push(117);
    v.push(99);
    v.push(116);
    v.push(105);
    v.push(111);
    v.push(110);
    proof {
        assert(v@ =~= k_tag_instruction());
    }
    v
}

pub proof fn k_tag_instruction_ok()
    ensures
        str_ok(k_tag_instruction()),
        k_tag_instruction().len() == 11,
{
    let s = k_tag_instruction();
    assert forall|i: int| 0 <= i < s.len() implies str_byte_ok(s[i]) by {
        if i == 0 {
            assert(s[0] == 73);
        } else if i == 1 {
            assert(s[1] == 110);
        } else if i == 2 {
            assert(s[2] == 115);
        } else if i == 3 {
            assert(s[3] == 116);
        } else if i == 4 {
            assert(s[4] == 114);
        } else if i == 5 {
            assert(s[5] == 117);
        } else if i == 6 {
            assert(s[6] == 99);
        } else if i == 7 {
            assert(s[7] == 116);
        } else if i == 8 {
            assert(s[8] == 105);
        } else if i == 9 {
            assert(s[9] == 111);
        } else if i == 10 {
            assert(s[10] == 110);
        } else {
        }
    }
}

/// `"TermType"`
pub open spec fn k_term_type() -> Seq<u8> {
    seq![84u8, 101, 114, 109, 84, 121, 112, 101]
}

pub fn key_term_type() -> (v: Vec<u8>)
    ensures
        v@ == k_term_type(),
{
    let mut v: Vec<u8> = Vec::new();
    v.push(84);
    v.push(101);
    v.push(114);
    v.push(109);
    v.push(84);
    v.push(121);
    v.push(112);
    v.push(101);
    proof {
        assert(v@ =~= k_term_type());
    }
    v
}

pub proof fn k_term_type_ok()
    ensures
        str_ok(k_term_type()),
        k_term_type().len() == 8,
{
    let s = k_term_type();
    assert forall|i: int| 0 <= i < s.len() implies str_byte_ok(s[i]) by {
        if i == 0 {
            assert(s[0] == 84);
        } else if i == 1 {
            assert(s[1] == 101);
        } else if i == 2 {
            assert(s[2] == 114);
        } else if i == 3 {
            assert(s[3] == 109);
        } else if i == 4 {
            assert(s[4] == 84);
        } else if i == 5 {
            assert(s[5] == 121);
        } else if i == 6 {
            assert(s[6] == 112);
        } else if i == 7 {
            assert(s[7] == 101);
        } else {
        }
    }
}

/// `"TermValue"`
pub open spec fn k_term_value() -> Seq<u8> {
    seq![84u8, 101, 114, 109, 86, 97, 108, 117, 101]
}

pub fn key_term_value() -> (v: Vec<u8>)
    ensures
        v@ == k_term_value(),
{
    let mut v: Vec<u8> = Vec::new();
    v.push(84);
    v.push(101);
    v.push(114);
    v.push(109);
    v.push(86);
    v.push(97);
    v.push(108);
    v.push(117);
    v.push(101);
    proof {
        assert(v@ =~= k_term_value());
    }
    v
}

pub proof fn k_term_value_ok()
    ensures
        str_ok(k_term_value()),
        k_term_value().len() == 9,
{
    let s = k_term_value();
    assert forall|i: int| 0 <= i < s.len() implies str_byte_ok(s[i]) by {
        if i == 0 {
            assert(s[0] == 84);
        } else if i == 1 {
            assert(s[1] == 101);
        } else if i == 2 {
            assert(s[2] == 114);
        } else if i == 3 {
            assert(s[3] == 109);
        } else if i == 4 {
            assert(s[4] == 86);
        } else if i == 5 {
            assert(s[5] == 97);
        } else if i == 6 {
            assert(s[6] == 108);
        } else if i == 7 {
            assert(s[7] == 117);
        } else if i == 8 {
            assert(s[8] == 101);
        } else {
        }
    }
}

/// `"Time"`
pub open spec fn k_time() -> Seq<u8> {
    seq![84u8, 105, 109, 101]
}

pub fn key_time() -> (v: Vec<u8>)
    ensures
        v@ == k_time(),
{
    let mut v: Vec<u8> = Vec::new();
    v.push(84);
    v.push(105);
    v.push(109);
    v.push(101);
    proof {
        assert(v@ =~= k_time());
    }
    v
}

pub proof fn k_time_ok()
    ensures
        str_ok(k_time()),
        k_time().len() == 4,
{
    let s = k_time();
    assert forall|i: int| 0 <= i < s.len() implies str_byte_ok(s[i]) by {
        if i == 0 {
            assert(s[0] == 84);
        } else if i == 1 {
            assert(s[1] == 105);
        } else if i == 2 {
            assert(s[2] == 109);
        } else if i == 3 {
            assert(s[3] == 101);
        } else {
        }
    }
}

/// `"TimeTag"`
pub open spec fn k_time_tag() -> Seq<u8> {
    seq![84u8, 105, 109, 101, 84, 97, 103]
}

pub fn key_time_tag() -> (v: Vec<u8>)
    ensures
        v@ == k_time_tag(),
{
    let mut v: Vec<u8> = Vec::new();
    v.push(84);
    v.push(105);
    v.push(109);
    v.push(101);
    v.push(84);
    v.push(97);
    v.push(103);
    proof {
        assert(v@ =~= k_time_tag());
    }
    v
}

pub proof fn k_time_tag_ok()
    ensures
        str_ok(k_time_tag()),
        k_time_tag().len() == 7,
{
    let s = k_time_tag();
    assert forall|i: int| 0 <= i < s.len() implies str_byte_ok(s[i]) by {
        if i == 0 {
            assert(s[0] == 84);
        } else if i == 1 {
            assert(s[1] == 105);
        } else if i == 2 {
            assert(s[2] == 109);
        } else if i == 3 {
            assert(s[3] == 101);
        } else if i == 4 {
            assert(s[4] == 84);
        } else if i == 5 {
            assert(s[5] == 97);
        } else if i == 6 {
            assert(s[6] == 103);
        } else {
        }
    }
}

/// `"ToolNumber"`
pub open spec fn k_tool_number() -> Seq<u8> {
    seq![84u8, 111, 111, 108, 78, 117, 109, 98, 101, 114]
}

pub fn key_tool_number() -> (v: Vec<u8>)
    ensures
        v@ == k_tool_number(),
{
    let mut v: Vec<u8> = Vec::new();
    v.push(84);
    v.push(111);
    v.push(111);
    v.push(108);
    v.push(78);
    v.push(117);
    v.push(109);
    v.push(98);
    v.push(101);
    v.push(114);
    proof {
        assert(v@ =~= k_tool_number());
    }
    v
}

pub proof fn k_tool_number_ok()
    ensures
        str_ok(k_tool_number()),
        k_tool_number().len() == 10,
{
    let s = k_tool_number();
    assert forall|i: int| 0 <= i < s.len() implies str_byte_ok(s[i]) by {
        if i == 0 {
            assert(s[0] == 84);
        } else if i == 1 {
            assert(s[1] == 111);
        } else if i == 2 {
            assert(s[2] == 111);
        } else if i == 3 {
            assert(s[3] == 108);
        } else if i == 4 {
            assert(s[4] == 78);
        } else if i == 5 {
            assert(s[5] == 117);
        } else if i == 6 {
            assert(s[6] == 109);
        } else if i == 7 {
            assert(s[7] == 98);
        } else if i == 8 {
            assert(s[8] == 101);
        } else if i == 9 {
            assert(s[9] == 114);
        } else {
        }
    }
}

/// `"TPMode"`
pub open spec fn k_tp_mode() -> Seq<u8> {
    seq![84u8, 80, 77, 111, 100, 101]
}

pub fn key_tp_mode() -> (v: Vec<u8>)
    ensures
        v@ == k_tp_mode(),
{
    let mut v: Vec<u8> = Vec::new();
    v.push(84);
    v.push(80);
    v.push(77);
    v.push(111);
    v.push(100);
    v.push(101);
    proof {
        assert(v@ =~= k_tp_mode());
    }
    v
}

pub proof fn k_tp_mode_ok()
    ensures
        str_ok(k_tp_mode()),
        k_tp_mode().len() == 6,
{
    let s = k_tp_mode();
    assert forall|i: int| 0 <= i < s.len() implies str_byte_ok(s[i]) by {
        if i == 0 {
            assert(s[0] == 84);
        } else if i == 1 {
            assert(s[1] == 80);
        } else if i == 2 {
            assert(s[2] == 77);
        } else if i == 3 {
            assert(s[3] == 111);
        } else if i == 4 {
            assert(s[4] == 100);
        } else if i == 5 {
            assert(s[5] == 101);
        } else {
        }
    }
}

/// `"Turn4"`
pub open spec fn k_turn4() -> Seq<u8> {
    seq![84u8, 117, 114, 110, 52]
}

pub fn key_turn4() -> (v: Vec<u8>)
    ensures
        v@ == k_turn4(),
{
    let mut v: Vec<u8> = Vec::new();
    v.push(84);
    v.push(117);
    v.push(114);
    v.push(110);
    v.push(52);
    proof {
        assert(v@ =~= k_turn4());
    }
    v
}

pub proof fn k_turn4_ok()
    ensures
        str_ok(k_turn4()),
        k_turn4().len() == 5,
{
    let s = k_turn4();
    assert forall|i: int| 0 <= i < s.len() implies str_byte_ok(s[i]) by {
        if i == 0 {
            assert(s[0] == 84);
        } else if i == 1 {
            assert(s[1] == 117);
        } else if i == 2 {
            assert(s[2] == 114);
        } else if i == 3 {
            assert(s[3] == 110);
        } else if i == 4 {
            assert(s[4] == 52);
        } else {
        }
    }
}

/// `"Turn5"`
pub open spec fn k_turn5() -> Seq<u8> {
    seq![84u8, 117, 114, 110, 53]
}

pub fn key_turn5() -> (v: Vec<u8>)
    ensures
        v@ == k_turn5(),
{
    let mut v: Vec<u8> = Vec::new();
    v.push(84);
    v.push(117);
    v.push(114);
    v.push(110);
    v.push(53);
    proof {
        assert(v@ =~= k_turn5());
    }
    v
}

pub proof fn k_turn5_ok()
    ensures
        str_ok(k_turn5()),
        k_turn5().len() == 5,
{
    let s = k_turn5();
    assert forall|i: int| 0 <= i < s.len() implies str_byte_ok(s[i]) by {
        if i == 0 {
            assert(s[0] == 84);
        } else if i == 1 {
            assert(s[1] == 117);
        } else if i == 2 {
            assert(s[2] == 114);
        } else if i == 3 {
            assert(s[3] == 110);
        } else if i == 4 {
            assert(s[4] == 53);
        } else {
        }
    }
}

/// `"Turn6"`
pub open spec fn k_turn6() -> Seq<u8> {
    seq![84u8, 117, 114, 110, 54]
}

pub fn key_turn6() -> (v: Vec<u8>)
    ensures
        v@ == k_turn6(),
{
    let mut v: Vec<u8> = Vec::new();
    v.push(84);
    v.push(117);
    v.push(114);
    v.push(110);
    v.push(54);
    proof {
        assert(v@ =~= k_turn6());
    }
    v
}

pub proof fn k_turn6_ok()
    ensures
        str_ok(k_turn6()),
        k_turn6().len() == 5,
{
    let s = k_turn6();
    assert forall|i: int| 0 <= i < s.len() implies str_byte_ok(s[i]) by {
        if i == 0 {
            assert(s[0] == 84);
        } else if i == 1 {
            assert(s[1] == 117);
        } else if i == 2 {
            assert(s[2] == 114);
        } else if i == 3 {
            assert(s[3] == 110);
        } else if i == 4 {
            assert(s[4] == 54);
        } else {
        }
    }
}

/// `"UFrameNumber"`
pub open spec fn k_uframe_number() -> Seq<u8> {
    seq![85u8, 70, 114, 97, 109, 101, 78, 117, 109, 98, 101, 114]
}

pub fn key_uframe_number() -> (v: Vec<u8>)
    ensures
        v@ == k_uframe_number(),
{
    let mut v: Vec<u8> = Vec::new();
    v.push(85);
    v.push(70);
    v.push(114);
    v.push(97);
    v.push(109);
    v.push(101);
    v.push(78);
    v.push(117);
    v.push(109);
    v.push(98);
    v.push(101);
    v.push(114);
    proof {
        assert(v@ =~= k_uframe_number());
    }
    v
}

pub proof fn k_uframe_number_ok()
    ensures
        str_ok(k_uframe_number()),
        k_uframe_number().len() == 12,
{
    let s = k_uframe_number();
    assert forall|i: int| 0 <= i < s.len() implies str_byte_ok(s[i]) by {
        if i == 0 {
            assert(s[0] == 85);
        } else if i == 1 {
            assert(s[1] == 70);
        } else if i == 2 {
            assert(s[2] == 114);
        } else if i == 3 {
            assert(s[3] == 97);
        } else if i == 4 {
            assert(s[4] == 109);
        } else if i == 5 {
            assert(s[5] == 101);
        } else if i == 6 {
            assert(s[6] == 78);
        } else if i == 7 {
            assert(s[7] == 117);
        } else if i == 8 {
            assert(s[8] == 109);
        } else if i == 9 {
            assert(s[9] == 98);
        } else if i == 10 {
            assert(s[10] == 101);
        } else if i == 11 {
            assert(s[11] == 114);
        } else {
        }
    }
}

/// `"Up"`
pub open spec fn k_up() -> Seq<u8> {
    seq![85u8, 112]
}

pub fn key_up() -> (v: Vec<u8>)
    ensures
        v@ == k_up(),
{
    let mut v: Vec<u8> = Vec::new();
    v.push(85);
    v.push(112);
    proof {
        assert(v@ =~= k_up());
    }
    v
}

pub proof fn k_up_ok()
    ensures
        str_ok(k_up()),
        k_up().len() == 2,
{
    let s = k_up();
    assert forall|i: int| 0 <= i < s.len() implies str_byte_ok(s[i]) by {
        if i == 0 {
            assert(s[0] == 85);
        } else if i == 1 {
            assert(s[1] == 112);
        } else {
        }
    }
}

/// `"UToolNumber"`
pub open spec fn k_utool_number() -> Seq<u8> {
    seq![85u8, 84, 111, 111, 108, 78, 117, 109, 98, 101, 114]
}

pub fn key_utool_number() -> (v: Vec<u8>)
    ensures
        v@ == k_utool_number(),
{
    let mut v: Vec<u8> = Vec::new();
    v.push(85);
    v.push(84);
    v.push(111);
    v.push(111);
    v.push(108);
    v.push(78);
    v.push(117);
    v.push(109);
    v.push(98);
    v.push(101);
    v.push(114);
    proof {
        assert(v@ =~= k_utool_number());
    }
    v
}

pub proof fn k_utool_number_ok()
    ensures
        str_ok(k_utool_number()),
        k_utool_number().len() == 11,
{
    let s = k_utool_number();
    assert forall|i: int| 0 <= i < s.len() implies str_byte_ok(s[i]) by {
        if i == 0 {
            assert(s[0] == 85);
        } else if i == 1 {
            assert(s[1] == 84);
        } else if i == 2 {
            assert(s[2] == 111);
        } else if i == 3 {
            assert(s[3] == 111);
        } else if i == 4 {
            assert(s[4] == 108);
        } else if i == 5 {
            assert(s[5] == 78);
        } else if i == 6 {
            assert(s[6] == 117);
        } else if i == 7 {
            assert(s[7] == 109);
        } else if i == 8 {
            assert(s[8] == 98);
        } else if i == 9 {
            assert(s[9] == 101);
        } else if i == 10 {
            assert(s[10] == 114);
        } else {
        }
    }
}

/// `"CNT"`
pub open spec fn k_v_cnt() -> Seq<u8> {
    seq![67u8, 78, 84]
}

pub fn key_v_cnt() -> (v: Vec<u8>)
    ensures
        v@ == k_v_cnt(),
{
    let mut v: Vec<u8> = Vec::new();
    v.push(67);
    v.push(78);
    v.push(84);
    proof {
        assert(v@ =~= k_v_cnt());
    }
    v
}

pub proof fn k_v_cnt_ok()
    ensures
        str_ok(k_v_cnt()),
        k_v_cnt().len() == 3,
{
    let s = k_v_cnt();
    assert forall|i: int| 0 <= i < s.len() implies str_byte_ok(s[i]) by {
        if i == 0 {
            assert(s[0] == 67);
        } else if i == 1 {
            assert(s[1] == 78);
        } else if i == 2 {
            assert(s[2] == 84);
        } else {
        }
    }
}

/// `"CR"`
pub open spec fn k_v_cr() -> Seq<u8> {
    seq![67u8, 82]
}

pub fn key_v_cr() -> (v: Vec<u8>)
    ensures
        v@ == k_v_cr(),
{
    let mut v: Vec<u8> = Vec::new();
    v.push(67);
    v.push(82);
    proof {
        assert(v@ =~= k_v_cr());
    }
    v
}

pub proof fn k_v_cr_ok()
    ensures
        str_ok(k_v_cr()),
        k_v_cr().len() == 2,
{
    let s = k_v_cr();
    assert forall|i: int| 0 <= i < s.len() implies str_byte_ok(s[i]) by {
        if i == 0 {
            assert(s[0] == 67);
        } else if i == 1 {
            assert(s[1] == 82);
        } else {
        }
    }
}

/// `"FINE"`
pub open spec fn k_v_fine() -> Seq<u8> {
    seq![70u8, 73, 78, 69]
}

pub fn key_v_fine() -> (v: Vec<u8>)
    ensures
        v@ == k_v_fine(),
{
    let mut v: Vec<u8> = Vec::new();
    v.push(70);
    v.push(73);
    v.push(78);
    v.push(69);
    proof {
        assert(v@ =~= k_v_fine());
    }
    v
}

pub proof fn k_v_fine_ok()
    ensures
        str_ok(k_v_fine()),
        k_v_fine().len() == 4,
{
    let s = k_v_fine();
    assert forall|i: int| 0 <= i < s.len() implies str_byte_ok(s[i]) by {
        if i == 0 {
            assert(s[0] == 70);
        } else if i == 1 {
            assert(s[1] == 73);
        } else if i == 2 {
            assert(s[2] == 78);
        } else if i == 3 {
            assert(s[3] == 69);
        } else {
        }
    }
}

/// `"InchMin"`
pub open spec fn k_v_inch_min() -> Seq<u8> {
    seq![73u8, 110, 99, 104, 77, 105, 110]
}

pub fn key_v_inch_min() -> (v: Vec<u8>)
    ensures
        v@ == k_v_inch_min(),
{
    let mut v: Vec<u8> = Vec::new();
    v.push(73);
    v.push(110);
    v.push(99);
    v.push(104);
    v.push(77);
    v.push(105);
    v.push(110);
    proof {
        assert(v@ =~= k_v_inch_min());
    }
    v
}

pub proof fn k_v_inch_min_ok()
    ensures
        str_ok(k_v_inch_min()),
        k_v_inch_min().len() == 7,
{
    let s = k_v_inch_min();
    assert forall|i: int| 0 <= i < s.len() implies str_byte_ok(s[i]) by {
        if i == 0 {
            assert(s[0] == 73);
        } else if i == 1 {
            assert(s[1] == 110);
        } else if i == 2 {
            assert(s[2] == 99);
        } else if i == 3 {
            assert(s[3] == 104);
        } else if i == 4 {
            assert(s[4] == 77);
        } else if i == 5 {
            assert(s[5] == 105);
        } else if i == 6 {
            assert(s[6] == 110);
        } else {
        }
    }
}

/// `"mSec"`
pub open spec fn k_v_m_sec() -> Seq<u8> {
    seq![109u8, 83, 101, 99]
}

pub fn key_v_m_sec() -> (v: Vec<u8>)
    ensures
        v@ == k_v_m_sec(),
{
    let mut v: Vec<u8> = Vec::new();
    v.push(109);
    v.push(83);
    v.push(101);
    v.push(99);
    proof {
        assert(v@ =~= k_v_m_sec());
    }
    v
}

pub proof fn k_v_m_sec_ok()
    ensures
        str_ok(k_v_m_sec()),
        k_v_m_sec().len() == 4,
{
    let s = k_v_m_sec();
    assert forall|i: int| 0 <= i < s.len() implies str_byte_ok(s[i]) by {
        if i == 0 {
            assert(s[0] == 109);
        } else if i == 1 {
            assert(s[1] == 83);
        } else if i == 2 {
            assert(s[2] == 101);
        } else if i == 3 {
            assert(s[3] == 99);
        } else {
        }
    }
}

/// `"mmSec"`
pub open spec fn k_v_mm_sec() -> Seq<u8> {
    seq![109u8, 109, 83, 101, 99]
}

pub fn key_v_mm_sec() -> (v: Vec<u8>)
    ensures
        v@ == k_v_mm_sec(),
{
    let mut v: Vec<u8> = Vec::new();
    v.push(109);
    v.push(109);
    v.push(83);
    v.push(101);
    v.push(99);
    proof {
        assert(v@ =~= k_v_mm_sec());
    }
    v
}

pub proof fn k_v_mm_sec_ok()
    ensures
        str_ok(k_v_mm_sec()),
        k_v_mm_sec().len() == 5,
{
    let s = k_v_mm_sec();
    assert forall|i: int| 0 <= i < s.len() implies str_byte_ok(s[i]) by {
        if i == 0 {
            assert(s[0] == 109);
        } else if i == 1 {
            assert(s[1] == 109);
        } else if i == 2 {
            assert(s[2] == 83);
        } else if i == 3 {
            assert(s[3] == 101);
        } else if i == 4 {
            assert(s[4] == 99);
        } else {
        }
    }
}

/// `"OFF"`
pub open spec fn k_v_off() -> Seq<u8> {
    seq![79u8, 70, 70]
}

pub fn key_v_off() -> (v: Vec<u8>)
    ensures
        v@ == k_v_off(),
{
    let mut v: Vec<u8> = Vec::new();
    v.push(79);
    v.push(70);
    v.push(70);
    proof {
        assert(v@ =~= k_v_off());
    }
    v
}

pub proof fn k_v_off_ok()
    ensures
        str_ok(k_v_off()),
        k_v_off().len() == 3,
{
    let s = k_v_off();
    assert forall|i: int| 0 <= i < s.len() implies str_byte_ok(s[i]) by {
        if i == 0 {
            assert(s[0] == 79);
        } else if i == 1 {
            assert(s[1] == 70);
        } else if i == 2 {
            assert(s[2] == 70);
        } else {
        }
    }
}

/// `"ON"`
pub open spec fn k_v_on() -> Seq<u8> {
    seq![79u8, 78]
}

pub fn key_v_on() -> (v: Vec<u8>)
    ensures
        v@ == k_v_on(),
{
    let mut v: Vec<u8> = Vec::new();
    v.push(79);
    v.push(78);
    proof {
        assert(v@ =~= k_v_on());
    }
    v
}

pub proof fn k_v_on_ok()
    ensures
        str_ok(k_v_on()),
        k_v_on().len() == 2,
{
    let s = k_v_on();
    assert forall|i: int| 0 <= i < s.len() implies str_byte_ok(s[i]) by {
        if i == 0 {
            assert(s[0] == 79);
        } else if i == 1 {
            assert(s[1] == 78);
        } else {
        }
    }
}

/// `"Time"`
pub open spec fn k_v_time() -> Seq<u8> {
    seq![84u8, 105, 109, 101]
}

pub fn key_v_time() -> (v: Vec<u8>)
    ensures
        v@ == k_v_time(),
{
    let mut v: Vec<u8> = Vec::new();
    v.push(84);
    v.push(105);
    v.push(109);
    v.push(101);
    proof {
        assert(v@ =~= k_v_time());
    }
    v
}

pub proof fn k_v_time_ok()
    ensures
        str_ok(k_v_time()),
        k_v_time().len() == 4,
{
    let s = k_v_time();
    assert forall|i: int| 0 <= i < s.len() implies str_byte_ok(s[i]) by {
        if i == 0 {
            assert(s[0] == 84);
        } else if i == 1 {
            assert(s[1] == 105);
        } else if i == 2 {
            assert(s[2] == 109);
        } else if i == 3 {
            assert(s[3] == 101);
        } else {
        }
    }
}

/// `"Value"`
pub open spec fn k_value() -> Seq<u8> {
    seq![86u8, 97, 108, 117, 101]
}

pub fn key_value() -> (v: Vec<u8>)
    ensures
        v@ == k_value(),
{
    let mut v: Vec<u8> = Vec::new();
    v.push(86);
    v.push(97);
    v.push(108);
    v.push(117);
    v.push(101);
    proof {
        assert(v@ =~= k_value());
    }
    v
}

pub proof fn k_value_ok()
    ensures
        str_ok(k_value()),
        k_value().len() == 5,
{
    let s = k_value();
    assert forall|i: int| 0 <= i < s.len() implies str_byte_ok(s[i]) by {
        if i == 0 {
            assert(s[0] == 86);
        } else if i == 1 {
            assert(s[1] == 97);
        } else if i == 2 {
            assert(s[2] == 108);
        } else if i == 3 {
            assert(s[3] == 117);
        } else if i == 4 {
            assert(s[4] == 101);
        } else {
        }
    }
}

/// `"ViaConfiguration"`
pub open spec fn k_via_configuration() -> Seq<u8> {
    seq![86u8, 105, 97, 67, 111, 110, 102, 105, 103, 117, 114, 97, 116, 105, 111, 110]
}

pub fn key_via_configuration() -> (v: Vec<u8>)
    ensures
        v@ == k_via_configuration(),
{
    let mut v: Vec<u8> = Vec::new();
    v.push(86);
    v.push(105);
    v.push(97);
    v.push(67);
    v.push(111);
    v.push(110);
    v.push(102);
    v.push(105);
    v.push(103);
    v.push(117);
    v.push(114);
    v.push(97);
    v.push(116);
    v.push(105);
    v.push(111);
    v.push(110);
    proof {
        assert(v@ =~= k_via_configuration());
    }
    v
}

pub proof fn k_via_configuration_ok()
    ensures
        str_ok(k_via_configuration()),
        k_via_configuration().len() == 16,
{
    let s = k_via_configuration();
    assert forall|i: int| 0 <= i < s.len() implies str_byte_ok(s[i]) by {
        if i == 0 {
            assert(s[0] == 86);
        } else if i == 1 {
            assert(s[1] == 105);
        } else if i == 2 {
            assert(s[2] == 97);
        } else if i == 3 {
            assert(s[3] == 67);
        } else if i == 4 {
            assert(s[4] == 111);
        } else if i == 5 {
            assert(s[5] == 110);
        } else if i == 6 {
            assert(s[6] == 102);
        } else if i == 7 {
            assert(s[7] == 105);
        } else if i == 8 {
            assert(s[8] == 103);
        } else if i == 9 {
            assert(s[9] == 117);
        } else if i == 10 {
            assert(s[10] == 114);
        } else if i == 11 {
            assert(s[11] == 97);
        } else if i == 12 {
            assert(s[12] == 116);
        } else if i == 13 {
            assert(s[13] == 105);
        } else if i == 14 {
            assert(s[14] == 111);
        } else if i == 15 {
            assert(s[15] == 110);
        } else {
        }
    }
}

/// `"ViaPosition"`
pub open spec fn k_via_position() -> Seq<u8> {
    seq![86u8, 105, 97, 80, 111, 115, 105, 116, 105, 111, 110]
}

pub fn key_via_position() -> (v: Vec<u8>)
    ensures
        v@ == k_via_position(),
{
    let mut v: Vec<u8> = Vec::new();
    v.push(86);
    v.push(105);
    v.push(97);
    v.push(80);
    v.push(111);
    v.push(115);
    v.push(105);
    v.push(116);
    v.push(105);
    v.push(111);
    v.push(110);
    proof {
        assert(v@ =~= k_via_position());
    }
    v
}

pub proof fn k_via_position_ok()
    ensures
        str_ok(k_via_position()),
        k_via_position().len() == 11,
{
    let s = k_via_position();
    assert forall|i: int| 0 <= i < s.len() implies str_byte_ok(s[i]) by {
        if i == 0 {
            assert(s[0] == 86);
        } else if i == 1 {
            assert(s[1] == 105);
        } else if i == 2 {
            assert(s[2] == 97);
        } else if i == 3 {
            assert(s[3] == 80);
        } else if i == 4 {
            assert(s[4] == 111);
        } else if i == 5 {
            assert(s[5] == 115);
        } else if i == 6 {
            assert(s[6] == 105);
        } else if i == 7 {
            assert(s[7] == 116);
        } else if i == 8 {
            assert(s[8] == 105);
        } else if i == 9 {
            assert(s[9] == 111);
        } else if i == 10 {
            assert(s[10] == 110);
        } else {
        }
    }
}

} // verus!
