//! Building and reading wire objects field by field: push helpers that
//! grow a pair list while tracking its ghost model, and the codecs of the
//! shared value types (posture configuration, positions, joint angles,
//! frame data, speed and termination modes).

use vstd::prelude::*;
use crate::json::{
    model_pairs, lemma_model_pairs_push, jnum_of_nat, jnum_of_int, jnum_of_dec, JNum, JVal,
    JValM, sget_u8, sget_u16, sget_u32, sget_i8, sget_i16, sget_i32, sget_dec, sget_str,
    sget_obj, get_u8, get_u16, get_u32, get_i8, get_i16, get_i32, get_dec, get_str, get_obj,
    push_bytes, bytes_eq, jpairs_wf, jval_wf, str_ok, lemma_slookup_at,
};
use crate::keys::{
    k_cp,
    k_cp_ok,
    k_cr,
    k_cr_ok,
    k_cw,
    k_cw_ok,
    k_cx,
    k_cx_ok,
    k_cy,
    k_cy_ok,
    k_cz,
    k_cz_ok,
    k_ext1,
    k_ext1_ok,
    k_ext2,
    k_ext2_ok,
    k_ext3,
    k_ext3_ok,
    k_fp,
    k_fp_ok,
    k_fr,
    k_fr_ok,
    k_front,
    k_front_ok,
    k_fw,
    k_fw_ok,
    k_fx,
    k_fx_ok,
    k_fy,
    k_fy_ok,
    k_fz,
    k_fz_ok,
    k_glip,
    k_glip_ok,
    k_j1,
    k_j1_ok,
    k_j2,
    k_j2_ok,
    k_j3,
    k_j3_ok,
    k_j4,
    k_j4_ok,
    k_j5,
    k_j5_ok,
    k_j6,
    k_j6_ok,
    k_j7,
    k_j7_ok,
    k_j8,
    k_j8_ok,
    k_j9,
    k_j9_ok,
    k_left,
    k_left_ok,
    k_turn4,
    k_turn4_ok,
    k_turn5,
    k_turn5_ok,
    k_turn6,
    k_turn6_ok,
    k_uframe_number,
    k_uframe_number_ok,
    k_up,
    k_up_ok,
    k_utool_number,
    k_utool_number_ok,
    k_v_cnt,
    k_v_cnt_ok,
    k_v_cr,
    k_v_cr_ok,
    k_v_fine,
    k_v_fine_ok,
    k_v_inch_min,
    k_v_inch_min_ok,
    k_v_m_sec,
    k_v_m_sec_ok,
    k_v_mm_sec,
    k_v_mm_sec_ok,
    k_v_off,
    k_v_off_ok,
    k_v_on,
    k_v_on_ok,
    k_v_time,
    k_v_time_ok,
    key_cp,
    key_cr,
    key_cw,
    key_cx,
    key_cy,
    key_cz,
    key_ext1,
    key_ext2,
    key_ext3,
    key_fp,
    key_fr,
    key_front,
    key_fw,
    key_fx,
    key_fy,
    key_fz,
    key_glip,
    key_j1,
    key_j2,
    key_j3,
    key_j4,
    key_j5,
    key_j6,
    key_j7,
    key_j8,
    key_j9,
    key_left,
    key_turn4,
    key_turn5,
    key_turn6,
    key_uframe_number,
    key_up,
    key_utool_number,
    key_v_cnt,
    key_v_cr,
    key_v_fine,
    key_v_inch_min,
    key_v_m_sec,
    key_v_mm_sec,
    key_v_off,
    key_v_on,
    key_v_time,
};
use crate::num::{u64_to_digits, milli_to_frac, Dec};
use crate::{Configuration, Position, JointAngles, FrameData, SpeedType, TermType};

verus! {

/// Appends `"key": x` for an unsigned integer field.
pub fn push_field_u32(out: &mut Vec<(Vec<u8>, JVal)>, key: Vec<u8>, x: u32)
    ensures
        model_pairs(final(out)@, 0) == model_pairs(old(out)@, 0).push(
            (key@, JValM::Num(jnum_of_nat(x as nat))),
        ),
{
    let frac: Vec<u8> = Vec::new();
    let n = JNum { neg: false, int_digits: u64_to_digits(x as u64), frac_digits: frac };
    proof {
        assert(n.model().frac_digits =~= Seq::<u8>::empty());
        assert(n.model() == jnum_of_nat(x as nat));
    }
    let ghost prev = out@;
    let ghost gkey = key@;
    let pair = (key, JVal::Num(n));
    let ghost gpair = pair;
    out.push(pair);
    proof {
        lemma_model_pairs_push(prev, gpair);
        assert((gpair.0@, gpair.1.model()) == (gkey, JValM::Num(jnum_of_nat(x as nat))));
    }
}

/// Appends `"key": x` for a signed integer field.
pub fn push_field_i32(out: &mut Vec<(Vec<u8>, JVal)>, key: Vec<u8>, x: i32)
    ensures
        model_pairs(final(out)@, 0) == model_pairs(old(out)@, 0).push(
            (key@, JValM::Num(jnum_of_int(x as int))),
        ),
{
    let neg = x < 0;
    let mag: u64 = if x < 0 {
        (-(x as i64)) as u64
    } else {
        x as u64
    };
    let frac: Vec<u8> = Vec::new();
    let n = JNum { neg, int_digits: u64_to_digits(mag), frac_digits: frac };
    proof {
        assert(n.model().frac_digits =~= Seq::<u8>::empty());
        assert(n.model() == jnum_of_int(x as int));
    }
    let ghost prev = out@;
    let ghost gkey = key@;
    let pair = (key, JVal::Num(n));
    let ghost gpair = pair;
    out.push(pair);
    proof {
        lemma_model_pairs_push(prev, gpair);
        assert((gpair.0@, gpair.1.model()) == (gkey, JValM::Num(jnum_of_int(x as int))));
    }
}

/// Appends `"key": d` for a fixed-point field.
pub fn push_field_dec(out: &mut Vec<(Vec<u8>, JVal)>, key: Vec<u8>, d: Dec)
    requires
        d.milli < 1000,
    ensures
        model_pairs(final(out)@, 0) == model_pairs(old(out)@, 0).push(
            (key@, JValM::Num(jnum_of_dec(d))),
        ),
{
    let n = JNum {
        neg: d.neg,
        int_digits: u64_to_digits(d.units as u64),
        frac_digits: milli_to_frac(d.milli),
    };
    proof {
        assert(n.model() == jnum_of_dec(d));
    }
    let ghost prev = out@;
    let ghost gkey = key@;
    let pair = (key, JVal::Num(n));
    let ghost gpair = pair;
    out.push(pair);
    proof {
        lemma_model_pairs_push(prev, gpair);
        assert((gpair.0@, gpair.1.model()) == (gkey, JValM::Num(jnum_of_dec(d))));
    }
}

/// Appends `"key": "text"` for a string field.
pub fn push_field_str(out: &mut Vec<(Vec<u8>, JVal)>, key: Vec<u8>, text: &[u8])
    ensures
        model_pairs(final(out)@, 0) == model_pairs(old(out)@, 0).push((key@, JValM::Str(text@))),
{
    let mut t: Vec<u8> = Vec::new();
    push_bytes(&mut t, text);
    proof {
        assert(t@ =~= text@);
    }
    let ghost prev = out@;
    let ghost gkey = key@;
    let pair = (key, JVal::Str(t));
    let ghost gpair = pair;
    out.push(pair);
    proof {
        lemma_model_pairs_push(prev, gpair);
        assert((gpair.0@, gpair.1.model()) == (gkey, JValM::Str(text@)));
    }
}

/// Appends `"key": { ... }` for a nested object field.
pub fn push_field_obj(out: &mut Vec<(Vec<u8>, JVal)>, key: Vec<u8>, sub: Vec<(Vec<u8>, JVal)>)
    ensures
        model_pairs(final(out)@, 0) == model_pairs(old(out)@, 0).push(
            (key@, JValM::Obj(model_pairs(sub@, 0))),
        ),
{
    let ghost prev = out@;
    let ghost gkey = key@;
    let ghost gsub = sub@;
    let pair = (key, JVal::Obj(sub));
    let ghost gpair = pair;
    out.push(pair);
    proof {
        lemma_model_pairs_push(prev, gpair);
        assert((gpair.0@, gpair.1.model()) == (gkey, JValM::Obj(model_pairs(gsub, 0))));
    }
}


/// A digital port level.
#[derive(Debug, Clone, Copy, PartialEq, Eq, Structural)]
pub enum OnOff {
    ON,
    OFF,
}


impl Configuration {
    /// The wire pairs of this value, in declaration order.
    pub open spec fn jpairs(self) -> Seq<(Seq<u8>, JValM)> {
        seq![
            (k_utool_number(), JValM::Num(jnum_of_nat(self.u_tool_number as nat))),
            (k_uframe_number(), JValM::Num(jnum_of_nat(self.u_frame_number as nat))),
            (k_front(), JValM::Num(jnum_of_nat(self.front as nat))),
            (k_up(), JValM::Num(jnum_of_nat(self.up as nat))),
            (k_left(), JValM::Num(jnum_of_nat(self.left as nat))),
            (k_glip(), JValM::Num(jnum_of_nat(self.glip as nat))),
            (k_turn4(), JValM::Num(jnum_of_nat(self.turn4 as nat))),
            (k_turn5(), JValM::Num(jnum_of_nat(self.turn5 as nat))),
            (k_turn6(), JValM::Num(jnum_of_nat(self.turn6 as nat))),
        ]
    }

    pub open spec fn wf(self) -> bool {
        true
    }

    /// Reads this value out of an object's pairs, by key;
    /// unknown pairs are ignored, a missing or ill-typed field fails.
    pub open spec fn sdecode(m: Seq<(Seq<u8>, JValM)>) -> Option<Configuration> {
        match sget_u8(m, k_utool_number()) {
            Some(u_tool_number) => 
            match sget_u8(m, k_uframe_number()) {
                Some(u_frame_number) => 
                match sget_u8(m, k_front()) {
                    Some(front) => 
                    match sget_u8(m, k_up()) {
                        Some(up) => 
                        match sget_u8(m, k_left()) {
                            Some(left) => 
                            match sget_u8(m, k_glip()) {
                                Some(glip) => 
                                match sget_u8(m, k_turn4()) {
                                    Some(turn4) => 
                                    match sget_u8(m, k_turn5()) {
                                        Some(turn5) => 
                                        match sget_u8(m, k_turn6()) {
                                            Some(turn6) => 
                                            Some(Configuration { u_tool_number, u_frame_number, front, up, left, glip, turn4, turn5, turn6 }),
                                            None => None,
                                        },
                                        None => None,
                                    },
                                    None => None,
                                },
                                None => None,
                            },
                            None => None,
                        },
                        None => None,
                    },
                    None => None,
                },
                None => None,
            },
            None => None,
        }
    }

    pub fn push_pairs(&self, out: &mut Vec<(Vec<u8>, JVal)>)
        ensures
            model_pairs(final(out)@, 0) == model_pairs(old(out)@, 0) + self.jpairs(),
    {
        push_field_u32(out, key_utool_number(), self.u_tool_number as u32);
        push_field_u32(out, key_uframe_number(), self.u_frame_number as u32);
        push_field_u32(out, key_front(), self.front as u32);
        push_field_u32(out, key_up(), self.up as u32);
        push_field_u32(out, key_left(), self.left as u32);
        push_field_u32(out, key_glip(), self.glip as u32);
        push_field_u32(out, key_turn4(), self.turn4 as u32);
        push_field_u32(out, key_turn5(), self.turn5 as u32);
        push_field_u32(out, key_turn6(), self.turn6 as u32);
        proof {
            assert(model_pairs(out@, 0) =~= model_pairs(old(out)@, 0) + self.jpairs());
        }
    }

    pub fn from_pairs(pairs: &Vec<(Vec<u8>, JVal)>) -> (r: Option<Configuration>)
        ensures
            r == Self::sdecode(model_pairs(pairs@, 0)),
    {
        let u_tool_number = match get_u8(pairs, key_utool_number().as_slice()) {
            Some(v) => v,
            None => {
                return None;
            },
        };
        let u_frame_number = match get_u8(pairs, key_uframe_number().as_slice()) {
            Some(v) => v,
            None => {
                return None;
            },
        };
        let front = match get_u8(pairs, key_front().as_slice()) {
            Some(v) => v,
            None => {
                return None;
            },
        };
        let up = match get_u8(pairs, key_up().as_slice()) {
            Some(v) => v,
            None => {
                return None;
            },
        };
        let left = match get_u8(pairs, key_left().as_slice()) {
            Some(v) => v,
            None => {
                return None;
            },
        };
        let glip = match get_u8(pairs, key_glip().as_slice()) {
            Some(v) => v,
            None => {
                return None;
            },
        };
        let turn4 = match get_u8(pairs, key_turn4().as_slice()) {
            Some(v) => v,
            None => {
                return None;
            },
        };
        let turn5 = match get_u8(pairs, key_turn5().as_slice()) {
            Some(v) => v,
            None => {
                return None;
            },
        };
        let turn6 = match get_u8(pairs, key_turn6().as_slice()) {
            Some(v) => v,
            None => {
                return None;
            },
        };
        Some(Configuration { u_tool_number, u_frame_number, front, up, left, glip, turn4, turn5, turn6 })
    }

    pub proof fn lemma_wf(self)
        ensures
            jpairs_wf(self.jpairs(), 0),
    {
        let m = self.jpairs();
        k_utool_number_ok();
        k_uframe_number_ok();
        k_front_ok();
        k_up_ok();
        k_left_ok();
        k_glip_ok();
        k_turn4_ok();
        k_turn5_ok();
        k_turn6_ok();
        crate::json::lemma_num_u64_round_trip(self.u_tool_number as nat);
        crate::json::lemma_num_u64_round_trip(self.u_frame_number as nat);
        crate::json::lemma_num_u64_round_trip(self.front as nat);
        crate::json::lemma_num_u64_round_trip(self.up as nat);
        crate::json::lemma_num_u64_round_trip(self.left as nat);
        crate::json::lemma_num_u64_round_trip(self.glip as nat);
        crate::json::lemma_num_u64_round_trip(self.turn4 as nat);
        crate::json::lemma_num_u64_round_trip(self.turn5 as nat);
        crate::json::lemma_num_u64_round_trip(self.turn6 as nat);
        assert(jval_wf(JValM::Num(jnum_of_nat(self.u_tool_number as nat))));
        assert(jval_wf(JValM::Num(jnum_of_nat(self.u_frame_number as nat))));
        assert(jval_wf(JValM::Num(jnum_of_nat(self.front as nat))));
        assert(jval_wf(JValM::Num(jnum_of_nat(self.up as nat))));
        assert(jval_wf(JValM::Num(jnum_of_nat(self.left as nat))));
        assert(jval_wf(JValM::Num(jnum_of_nat(self.glip as nat))));
        assert(jval_wf(JValM::Num(jnum_of_nat(self.turn4 as nat))));
        assert(jval_wf(JValM::Num(jnum_of_nat(self.turn5 as nat))));
        assert(jval_wf(JValM::Num(jnum_of_nat(self.turn6 as nat))));
        assert(jpairs_wf(m, 9));
        assert(jpairs_wf(m, 8));
        assert(jpairs_wf(m, 7));
        assert(jpairs_wf(m, 6));
        assert(jpairs_wf(m, 5));
        assert(jpairs_wf(m, 4));
        assert(jpairs_wf(m, 3));
        assert(jpairs_wf(m, 2));
        assert(jpairs_wf(m, 1));
        assert(jpairs_wf(m, 0));
    }

    /// Reading back the pairs this value prints yields it again
    pub proof fn lemma_round_trip(self)
        ensures
            Self::sdecode(self.jpairs()) == Some(self),
    {
        let m = self.jpairs();
        // field `u_tool_number`
        assert(m[0].0 == k_utool_number());
        lemma_slookup_at(m, k_utool_number(), 0);
        crate::json::lemma_num_u64_round_trip(self.u_tool_number as nat);
        assert(sget_u8(m, k_utool_number()) == Some(self.u_tool_number));
        // field `u_frame_number`
        assert(m[1].0 == k_uframe_number());
        assert forall|j: int| 0 <= j < 1 implies m[j].0 != k_uframe_number() by {
            if j == 0 {
                assert(k_utool_number().len() != k_uframe_number().len());
            } else {
            }
        }
        lemma_slookup_at(m, k_uframe_number(), 1);
        crate::json::lemma_num_u64_round_trip(self.u_frame_number as nat);
        assert(sget_u8(m, k_uframe_number()) == Some(self.u_frame_number));
        // field `front`
        assert(m[2].0 == k_front());
        assert forall|j: int| 0 <= j < 2 implies m[j].0 != k_front() by {
            if j == 0 {
                assert(k_utool_number().len() != k_front().len());
            } else if j == 1 {
                assert(k_uframe_number().len() != k_front().len());
            } else {
            }
        }
        lemma_slookup_at(m, k_front(), 2);
        crate::json::lemma_num_u64_round_trip(self.front as nat);
        assert(sget_u8(m, k_front()) == Some(self.front));
        // field `up`
        assert(m[3].0 == k_up());
        assert forall|j: int| 0 <= j < 3 implies m[j].0 != k_up() by {
            if j == 0 {
                assert(k_utool_number().len() != k_up().len());
            } else if j == 1 {
                assert(k_uframe_number().len() != k_up().len());
            } else if j == 2 {
                assert(k_front().len() != k_up().len());
            } else {
            }
        }
        lemma_slookup_at(m, k_up(), 3);
        crate::json::lemma_num_u64_round_trip(self.up as nat);
        assert(sget_u8(m, k_up()) == Some(self.up));
        // field `left`
        assert(m[4].0 == k_left());
        assert forall|j: int| 0 <= j < 4 implies m[j].0 != k_left() by {
            if j == 0 {
                assert(k_utool_number().len() != k_left().len());
            } else if j == 1 {
                assert(k_uframe_number().len() != k_left().len());
            } else if j == 2 {
                assert(k_front().len() != k_left().len());
            } else if j == 3 {
                assert(k_up().len() != k_left().len());
            } else {
            }
        }
        lemma_slookup_at(m, k_left(), 4);
        crate::json::lemma_num_u64_round_trip(self.left as nat);
        assert(sget_u8(m, k_left()) == Some(self.left));
        // field `glip`
        assert(m[5].0 == k_glip());
        assert forall|j: int| 0 <= j < 5 implies m[j].0 != k_glip() by {
            if j == 0 {
                assert(k_utool_number().len() != k_glip().len());
            } else if j == 1 {
                assert(k_uframe_number().len() != k_glip().len());
            } else if j == 2 {
                assert(k_front().len() != k_glip().len());
            } else if j == 3 {
                assert(k_up().len() != k_glip().len());
            } else if j == 4 {
                assert(k_left()[0] != k_glip()[0]);
            } else {
            }
        }
        lemma_slookup_at(m, k_glip(), 5);
        crate::json::lemma_num_u64_round_trip(self.glip as nat);
        assert(sget_u8(m, k_glip()) == Some(self.glip));
        // field `turn4`
        assert(m[6].0 == k_turn4());
        assert forall|j: int| 0 <= j < 6 implies m[j].0 != k_turn4() by {
            if j == 0 {
                assert(k_utool_number().len() != k_turn4().len());
            } else if j == 1 {
                assert(k_uframe_number().len() != k_turn4().len());
            } else if j == 2 {
                assert(k_front()[0] != k_turn4()[0]);
            } else if j == 3 {
                assert(k_up().len() != k_turn4().len());
            } else if j == 4 {
                assert(k_left().len() != k_turn4().len());
            } else if j == 5 {
                assert(k_glip().len() != k_turn4().len());
            } else {
            }
        }
        lemma_slookup_at(m, k_turn4(), 6);
        crate::json::lemma_num_u64_round_trip(self.turn4 as nat);
        assert(sget_u8(m, k_turn4()) == Some(self.turn4));
        // field `turn5`
        assert(m[7].0 == k_turn5());
        assert forall|j: int| 0 <= j < 7 implies m[j].0 != k_turn5() by {
            if j == 0 {
                assert(k_utool_number().len() != k_turn5().len());
            } else if j == 1 {
                assert(k_uframe_number().len() != k_turn5().len());
            } else if j == 2 {
                assert(k_front()[0] != k_turn5()[0]);
            } else if j == 3 {
                assert(k_up().len() != k_turn5().len());
            } else if j == 4 {
                assert(k_left().len() != k_turn5().len());
            } else if j == 5 {
                assert(k_glip().len() != k_turn5().len());
            } else if j == 6 {
                assert(k_turn4()[4] != k_turn5()[4]);
            } else {
            }
        }
        lemma_slookup_at(m, k_turn5(), 7);
        crate::json::lemma_num_u64_round_trip(self.turn5 as nat);
        assert(sget_u8(m, k_turn5()) == Some(self.turn5));
        // field `turn6`
        assert(m[8].0 == k_turn6());
        assert forall|j: int| 0 <= j < 8 implies m[j].0 != k_turn6() by {
            if j == 0 {
                assert(k_utool_number().len() != k_turn6().len());
            } else if j == 1 {
                assert(k_uframe_number().len() != k_turn6().len());
            } else if j == 2 {
                assert(k_front()[0] != k_turn6()[0]);
            } else if j == 3 {
                assert(k_up().len() != k_turn6().len());
            } else if j == 4 {
                assert(k_left().len() != k_turn6().len());
            } else if j == 5 {
                assert(k_glip().len() != k_turn6().len());
            } else if j == 6 {
                assert(k_turn4()[4] != k_turn6()[4]);
            } else if j == 7 {
                assert(k_turn5()[4] != k_turn6()[4]);
            } else {
            }
        }
        lemma_slookup_at(m, k_turn6(), 8);
        crate::json::lemma_num_u64_round_trip(self.turn6 as nat);
        assert(sget_u8(m, k_turn6()) == Some(self.turn6));
        assert(Self::sdecode(m) == Some(self));
    }

}

impl Position {
    /// The wire pairs of this value, in declaration order.
    pub open spec fn jpairs(self) -> Seq<(Seq<u8>, JValM)> {
        seq![
            (k_cx(), JValM::Num(jnum_of_dec(self.x))),
            (k_cy(), JValM::Num(jnum_of_dec(self.y))),
            (k_cz(), JValM::Num(jnum_of_dec(self.z))),
            (k_cw(), JValM::Num(jnum_of_dec(self.w))),
            (k_cp(), JValM::Num(jnum_of_dec(self.p))),
            (k_cr(), JValM::Num(jnum_of_dec(self.r))),
            (k_ext1(), JValM::Num(jnum_of_dec(self.ext1))),
            (k_ext2(), JValM::Num(jnum_of_dec(self.ext2))),
            (k_ext3(), JValM::Num(jnum_of_dec(self.ext3))),
        ]
    }

    pub open spec fn wf(self) -> bool {
        self.x.wf() && self.y.wf() && self.z.wf() && self.w.wf() && self.p.wf() && self.r.wf() && self.ext1.wf() && self.ext2.wf() && self.ext3.wf()
    }

    /// Reads this value out of an object's pairs, by key;
    /// unknown pairs are ignored, a missing or ill-typed field fails.
    pub open spec fn sdecode(m: Seq<(Seq<u8>, JValM)>) -> Option<Position> {
        match sget_dec(m, k_cx()) {
            Some(x) => 
            match sget_dec(m, k_cy()) {
                Some(y) => 
                match sget_dec(m, k_cz()) {
                    Some(z) => 
                    match sget_dec(m, k_cw()) {
                        Some(w) => 
                        match sget_dec(m, k_cp()) {
                            Some(p) => 
                            match sget_dec(m, k_cr()) {
                                Some(r) => 
                                match sget_dec(m, k_ext1()) {
                                    Some(ext1) => 
                                    match sget_dec(m, k_ext2()) {
                                        Some(ext2) => 
                                        match sget_dec(m, k_ext3()) {
                                            Some(ext3) => 
                                            Some(Position { x, y, z, w, p, r, ext1, ext2, ext3 }),
                                            None => None,
                                        },
                                        None => None,
                                    },
                                    None => None,
                                },
                                None => None,
                            },
                            None => None,
                        },
                        None => None,
                    },
                    None => None,
                },
                None => None,
            },
            None => None,
        }
    }

    pub fn push_pairs(&self, out: &mut Vec<(Vec<u8>, JVal)>)
        requires
            self.wf(),
        ensures
            model_pairs(final(out)@, 0) == model_pairs(old(out)@, 0) + self.jpairs(),
    {
        push_field_dec(out, key_cx(), self.x);
        push_field_dec(out, key_cy(), self.y);
        push_field_dec(out, key_cz(), self.z);
        push_field_dec(out, key_cw(), self.w);
        push_field_dec(out, key_cp(), self.p);
        push_field_dec(out, key_cr(), self.r);
        push_field_dec(out, key_ext1(), self.ext1);
        push_field_dec(out, key_ext2(), self.ext2);
        push_field_dec(out, key_ext3(), self.ext3);
        proof {
            assert(model_pairs(out@, 0) =~= model_pairs(old(out)@, 0) + self.jpairs());
        }
    }

    pub fn from_pairs(pairs: &Vec<(Vec<u8>, JVal)>) -> (r: Option<Position>)
        ensures
            r == Self::sdecode(model_pairs(pairs@, 0)),
    {
        let x = match get_dec(pairs, key_cx().as_slice()) {
            Some(v) => v,
            None => {
                return None;
            },
        };
        let y = match get_dec(pairs, key_cy().as_slice()) {
            Some(v) => v,
            None => {
                return None;
            },
        };
        let z = match get_dec(pairs, key_cz().as_slice()) {
            Some(v) => v,
            None => {
                return None;
            },
        };
        let w = match get_dec(pairs, key_cw().as_slice()) {
            Some(v) => v,
            None => {
                return None;
            },
        };
        let p = match get_dec(pairs, key_cp().as_slice()) {
            Some(v) => v,
            None => {
                return None;
            },
        };
        let r = match get_dec(pairs, key_cr().as_slice()) {
            Some(v) => v,
            None => {
                return None;
            },
        };
        let ext1 = match get_dec(pairs, key_ext1().as_slice()) {
            Some(v) => v,
            None => {
                return None;
            },
        };
        let ext2 = match get_dec(pairs, key_ext2().as_slice()) {
            Some(v) => v,
            None => {
                return None;
            },
        };
        let ext3 = match get_dec(pairs, key_ext3().as_slice()) {
            Some(v) => v,
            None => {
                return None;
            },
        };
        Some(Position { x, y, z, w, p, r, ext1, ext2, ext3 })
    }

    pub proof fn lemma_wf(self)
        requires
            self.wf(),
        ensures
            jpairs_wf(self.jpairs(), 0),
    {
        let m = self.jpairs();
        k_cx_ok();
        k_cy_ok();
        k_cz_ok();
        k_cw_ok();
        k_cp_ok();
        k_cr_ok();
        k_ext1_ok();
        k_ext2_ok();
        k_ext3_ok();
        crate::json::lemma_num_dec_round_trip(self.x);
        crate::json::lemma_num_dec_round_trip(self.y);
        crate::json::lemma_num_dec_round_trip(self.z);
        crate::json::lemma_num_dec_round_trip(self.w);
        crate::json::lemma_num_dec_round_trip(self.p);
        crate::json::lemma_num_dec_round_trip(self.r);
        crate::json::lemma_num_dec_round_trip(self.ext1);
        crate::json::lemma_num_dec_round_trip(self.ext2);
        crate::json::lemma_num_dec_round_trip(self.ext3);
        assert(jval_wf(JValM::Num(jnum_of_dec(self.x))));
        assert(jval_wf(JValM::Num(jnum_of_dec(self.y))));
        assert(jval_wf(JValM::Num(jnum_of_dec(self.z))));
        assert(jval_wf(JValM::Num(jnum_of_dec(self.w))));
        assert(jval_wf(JValM::Num(jnum_of_dec(self.p))));
        assert(jval_wf(JValM::Num(jnum_of_dec(self.r))));
        assert(jval_wf(JValM::Num(jnum_of_dec(self.ext1))));
        assert(jval_wf(JValM::Num(jnum_of_dec(self.ext2))));
        assert(jval_wf(JValM::Num(jnum_of_dec(self.ext3))));
        assert(jpairs_wf(m, 9));
        assert(jpairs_wf(m, 8));
        assert(jpairs_wf(m, 7));
        assert(jpairs_wf(m, 6));
        assert(jpairs_wf(m, 5));
        assert(jpairs_wf(m, 4));
        assert(jpairs_wf(m, 3));
        assert(jpairs_wf(m, 2));
        assert(jpairs_wf(m, 1));
        assert(jpairs_wf(m, 0));
    }

    /// Reading back the pairs this value prints yields it again
    pub proof fn lemma_round_trip(self)
        requires
            self.wf(),
        ensures
            Self::sdecode(self.jpairs()) == Some(self),
    {
        let m = self.jpairs();
        // field `x`
        assert(m[0].0 == k_cx());
        lemma_slookup_at(m, k_cx(), 0);
        crate::json::lemma_num_dec_round_trip(self.x);
        assert(sget_dec(m, k_cx()) == Some(self.x));
        // field `y`
        assert(m[1].0 == k_cy());
        assert forall|j: int| 0 <= j < 1 implies m[j].0 != k_cy() by {
            if j == 0 {
                assert(k_cx()[0] != k_cy()[0]);
            } else {
            }
        }
        lemma_slookup_at(m, k_cy(), 1);
        crate::json::lemma_num_dec_round_trip(self.y);
        assert(sget_dec(m, k_cy()) == Some(self.y));
        // field `z`
        assert(m[2].0 == k_cz());
        assert forall|j: int| 0 <= j < 2 implies m[j].0 != k_cz() by {
            if j == 0 {
                assert(k_cx()[0] != k_cz()[0]);
            } else if j == 1 {
                assert(k_cy()[0] != k_cz()[0]);
            } else {
            }
        }
        lemma_slookup_at(m, k_cz(), 2);
        crate::json::lemma_num_dec_round_trip(self.z);
        assert(sget_dec(m, k_cz()) == Some(self.z));
        // field `w`
        assert(m[3].0 == k_cw());
        assert forall|j: int| 0 <= j < 3 implies m[j].0 != k_cw() by {
            if j == 0 {
                assert(k_cx()[0] != k_cw()[0]);
            } else if j == 1 {
                assert(k_cy()[0] != k_cw()[0]);
            } else if j == 2 {
                assert(k_cz()[0] != k_cw()[0]);
            } else {
            }
        }
        lemma_slookup_at(m, k_cw(), 3);
        crate::json::lemma_num_dec_round_trip(self.w);
        assert(sget_dec(m, k_cw()) == Some(self.w));
        // field `p`
        assert(m[4].0 == k_cp());
        assert forall|j: int| 0 <= j < 4 implies m[j].0 != k_cp() by {
            if j == 0 {
                assert(k_cx()[0] != k_cp()[0]);
            } else if j == 1 {
                assert(k_cy()[0] != k_cp()[0]);
            } else if j == 2 {
                assert(k_cz()[0] != k_cp()[0]);
            } else if j == 3 {
                assert(k_cw()[0] != k_cp()[0]);
            } else {
            }
        }
        lemma_slookup_at(m, k_cp(), 4);
        crate::json::lemma_num_dec_round_trip(self.p);
        assert(sget_dec(m, k_cp()) == Some(self.p));
        // field `r`
        assert(m[5].0 == k_cr());
        assert forall|j: int| 0 <= j < 5 implies m[j].0 != k_cr() by {
            if j == 0 {
                assert(k_cx()[0] != k_cr()[0]);
            } else if j == 1 {
                assert(k_cy()[0] != k_cr()[0]);
            } else if j == 2 {
                assert(k_cz()[0] != k_cr()[0]);
            } else if j == 3 {
                assert(k_cw()[0] != k_cr()[0]);
            } else if j == 4 {
                assert(k_cp()[0] != k_cr()[0]);
            } else {
            }
        }
        lemma_slookup_at(m, k_cr(), 5);
        crate::json::lemma_num_dec_round_trip(self.r);
        assert(sget_dec(m, k_cr()) == Some(self.r));
        // field `ext1`
        assert(m[6].0 == k_ext1());
        assert forall|j: int| 0 <= j < 6 implies m[j].0 != k_ext1() by {
            if j == 0 {
                assert(k_cx().len() != k_ext1().len());
            } else if j == 1 {
                assert(k_cy().len() != k_ext1().len());
            } else if j == 2 {
                assert(k_cz().len() != k_ext1().len());
            } else if j == 3 {
                assert(k_cw().len() != k_ext1().len());
            } else if j == 4 {
                assert(k_cp().len() != k_ext1().len());
            } else if j == 5 {
                assert(k_cr().len() != k_ext1().len());
            } else {
            }
        }
        lemma_slookup_at(m, k_ext1(), 6);
        crate::json::lemma_num_dec_round_trip(self.ext1);
        assert(sget_dec(m, k_ext1()) == Some(self.ext1));
        // field `ext2`
        assert(m[7].0 == k_ext2());
        assert forall|j: int| 0 <= j < 7 implies m[j].0 != k_ext2() by {
            if j == 0 {
                assert(k_cx().len() != k_ext2().len());
            } else if j == 1 {
                assert(k_cy().len() != k_ext2().len());
            } else if j == 2 {
                assert(k_cz().len() != k_ext2().len());
            } else if j == 3 {
                assert(k_cw().len() != k_ext2().len());
            } else if j == 4 {
                assert(k_cp().len() != k_ext2().len());
            } else if j == 5 {
                assert(k_cr().len() != k_ext2().len());
            } else if j == 6 {
                assert(k_ext1()[3] != k_ext2()[3]);
            } else {
            }
        }
        lemma_slookup_at(m, k_ext2(), 7);
        crate::json::lemma_num_dec_round_trip(self.ext2);
        assert(sget_dec(m, k_ext2()) == Some(self.ext2));
        // field `ext3`
        assert(m[8].0 == k_ext3());
        assert forall|j: int| 0 <= j < 8 implies m[j].0 != k_ext3() by {
            if j == 0 {
                assert(k_cx().len() != k_ext3().len());
            } else if j == 1 {
                assert(k_cy().len() != k_ext3().len());
            } else if j == 2 {
                assert(k_cz().len() != k_ext3().len());
            } else if j == 3 {
                assert(k_cw().len() != k_ext3().len());
            } else if j == 4 {
                assert(k_cp().len() != k_ext3().len());
            } else if j == 5 {
                assert(k_cr().len() != k_ext3().len());
            } else if j == 6 {
                assert(k_ext1()[3] != k_ext3()[3]);
            } else if j == 7 {
                assert(k_ext2()[3] != k_ext3()[3]);
            } else {
            }
        }
        lemma_slookup_at(m, k_ext3(), 8);
        crate::json::lemma_num_dec_round_trip(self.ext3);
        assert(sget_dec(m, k_ext3()) == Some(self.ext3));
        assert(Self::sdecode(m) == Some(self));
    }

}

impl JointAngles {
    /// The wire pairs of this value, in declaration order.
    pub open spec fn jpairs(self) -> Seq<(Seq<u8>, JValM)> {
        seq![
            (k_j1(), JValM::Num(jnum_of_dec(self.j1))),
            (k_j2(), JValM::Num(jnum_of_dec(self.j2))),
            (k_j3(), JValM::Num(jnum_of_dec(self.j3))),
            (k_j4(), JValM::Num(jnum_of_dec(self.j4))),
            (k_j5(), JValM::Num(jnum_of_dec(self.j5))),
            (k_j6(), JValM::Num(jnum_of_dec(self.j6))),
            (k_j7(), JValM::Num(jnum_of_dec(self.j7))),
            (k_j8(), JValM::Num(jnum_of_dec(self.j8))),
            (k_j9(), JValM::Num(jnum_of_dec(self.j9))),
        ]
    }

    pub open spec fn wf(self) -> bool {
        self.j1.wf() && self.j2.wf() && self.j3.wf() && self.j4.wf() && self.j5.wf() && self.j6.wf() && self.j7.wf() && self.j8.wf() && self.j9.wf()
    }

    /// Reads this value out of an object's pairs, by key;
    /// unknown pairs are ignored, a missing or ill-typed field fails.
    pub open spec fn sdecode(m: Seq<(Seq<u8>, JValM)>) -> Option<JointAngles> {
        match sget_dec(m, k_j1()) {
            Some(j1) => 
            match sget_dec(m, k_j2()) {
                Some(j2) => 
                match sget_dec(m, k_j3()) {
                    Some(j3) => 
                    match sget_dec(m, k_j4()) {
                        Some(j4) => 
                        match sget_dec(m, k_j5()) {
                            Some(j5) => 
                            match sget_dec(m, k_j6()) {
                                Some(j6) => 
                                match sget_dec(m, k_j7()) {
                                    Some(j7) => 
                                    match sget_dec(m, k_j8()) {
                                        Some(j8) => 
                                        match sget_dec(m, k_j9()) {
                                            Some(j9) => 
                                            Some(JointAngles { j1, j2, j3, j4, j5, j6, j7, j8, j9 }),
                                            None => None,
                                        },
                                        None => None,
                                    },
                                    None => None,
                                },
                                None => None,
                            },
                            None => None,
                        },
                        None => None,
                    },
                    None => None,
                },
                None => None,
            },
            None => None,
        }
    }

    pub fn push_pairs(&self, out: &mut Vec<(Vec<u8>, JVal)>)
        requires
            self.wf(),
        ensures
            model_pairs(final(out)@, 0) == model_pairs(old(out)@, 0) + self.jpairs(),
    {
        push_field_dec(out, key_j1(), self.j1);
        push_field_dec(out, key_j2(), self.j2);
        push_field_dec(out, key_j3(), self.j3);
        push_field_dec(out, key_j4(), self.j4);
        push_field_dec(out, key_j5(), self.j5);
        push_field_dec(out, key_j6(), self.j6);
        push_field_dec(out, key_j7(), self.j7);
        push_field_dec(out, key_j8(), self.j8);
        push_field_dec(out, key_j9(), self.j9);
        proof {
            assert(model_pairs(out@, 0) =~= model_pairs(old(out)@, 0) + self.jpairs());
        }
    }

    pub fn from_pairs(pairs: &Vec<(Vec<u8>, JVal)>) -> (r: Option<JointAngles>)
        ensures
            r == Self::sdecode(model_pairs(pairs@, 0)),
    {
        let j1 = match get_dec(pairs, key_j1().as_slice()) {
            Some(v) => v,
            None => {
                return None;
            },
        };
        let j2 = match get_dec(pairs, key_j2().as_slice()) {
            Some(v) => v,
            None => {
                return None;
            },
        };
        let j3 = match get_dec(pairs, key_j3().as_slice()) {
            Some(v) => v,
            None => {
                return None;
            },
        };
        let j4 = match get_dec(pairs, key_j4().as_slice()) {
            Some(v) => v,
            None => {
                return None;
            },
        };
        let j5 = match get_dec(pairs, key_j5().as_slice()) {
            Some(v) => v,
            None => {
                return None;
            },
        };
        let j6 = match get_dec(pairs, key_j6().as_slice()) {
            Some(v) => v,
            None => {
                return None;
            },
        };
        let j7 = match get_dec(pairs, key_j7().as_slice()) {
            Some(v) => v,
            None => {
                return None;
            },
        };
        let j8 = match get_dec(pairs, key_j8().as_slice()) {
            Some(v) => v,
            None => {
                return None;
            },
        };
        let j9 = match get_dec(pairs, key_j9().as_slice()) {
            Some(v) => v,
            None => {
                return None;
            },
        };
        Some(JointAngles { j1, j2, j3, j4, j5, j6, j7, j8, j9 })
    }

    pub proof fn lemma_wf(self)
        requires
            self.wf(),
        ensures
            jpairs_wf(self.jpairs(), 0),
    {
        let m = self.jpairs();
        k_j1_ok();
        k_j2_ok();
        k_j3_ok();
        k_j4_ok();
        k_j5_ok();
        k_j6_ok();
        k_j7_ok();
        k_j8_ok();
        k_j9_ok();
        crate::json::lemma_num_dec_round_trip(self.j1);
        crate::json::lemma_num_dec_round_trip(self.j2);
        crate::json::lemma_num_dec_round_trip(self.j3);
        crate::json::lemma_num_dec_round_trip(self.j4);
        crate::json::lemma_num_dec_round_trip(self.j5);
        crate::json::lemma_num_dec_round_trip(self.j6);
        crate::json::lemma_num_dec_round_trip(self.j7);
        crate::json::lemma_num_dec_round_trip(self.j8);
        crate::json::lemma_num_dec_round_trip(self.j9);
        assert(jval_wf(JValM::Num(jnum_of_dec(self.j1))));
        assert(jval_wf(JValM::Num(jnum_of_dec(self.j2))));
        assert(jval_wf(JValM::Num(jnum_of_dec(self.j3))));
        assert(jval_wf(JValM::Num(jnum_of_dec(self.j4))));
        assert(jval_wf(JValM::Num(jnum_of_dec(self.j5))));
        assert(jval_wf(JValM::Num(jnum_of_dec(self.j6))));
        assert(jval_wf(JValM::Num(jnum_of_dec(self.j7))));
        assert(jval_wf(JValM::Num(jnum_of_dec(self.j8))));
        assert(jval_wf(JValM::Num(jnum_of_dec(self.j9))));
        assert(jpairs_wf(m, 9));
        assert(jpairs_wf(m, 8));
        assert(jpairs_wf(m, 7));
        assert(jpairs_wf(m, 6));
        assert(jpairs_wf(m, 5));
        assert(jpairs_wf(m, 4));
        assert(jpairs_wf(m, 3));
        assert(jpairs_wf(m, 2));
        assert(jpairs_wf(m, 1));
        assert(jpairs_wf(m, 0));
    }

    /// Reading back the pairs this value prints yields it again
    pub proof fn lemma_round_trip(self)
        requires
            self.wf(),
        ensures
            Self::sdecode(self.jpairs()) == Some(self),
    {
        let m = self.jpairs();
        // field `j1`
        assert(m[0].0 == k_j1());
        lemma_slookup_at(m, k_j1(), 0);
        crate::json::lemma_num_dec_round_trip(self.j1);
        assert(sget_dec(m, k_j1()) == Some(self.j1));
        // field `j2`
        assert(m[1].0 == k_j2());
        assert forall|j: int| 0 <= j < 1 implies m[j].0 != k_j2() by {
            if j == 0 {
                assert(k_j1()[1] != k_j2()[1]);
            } else {
            }
        }
        lemma_slookup_at(m, k_j2(), 1);
        crate::json::lemma_num_dec_round_trip(self.j2);
        assert(sget_dec(m, k_j2()) == Some(self.j2));
        // field `j3`
        assert(m[2].0 == k_j3());
        assert forall|j: int| 0 <= j < 2 implies m[j].0 != k_j3() by {
            if j == 0 {
                assert(k_j1()[1] != k_j3()[1]);
            } else if j == 1 {
                assert(k_j2()[1] != k_j3()[1]);
            } else {
            }
        }
        lemma_slookup_at(m, k_j3(), 2);
        crate::json::lemma_num_dec_round_trip(self.j3);
        assert(sget_dec(m, k_j3()) == Some(self.j3));
        // field `j4`
        assert(m[3].0 == k_j4());
        assert forall|j: int| 0 <= j < 3 implies m[j].0 != k_j4() by {
            if j == 0 {
                assert(k_j1()[1] != k_j4()[1]);
            } else if j == 1 {
                assert(k_j2()[1] != k_j4()[1]);
            } else if j == 2 {
                assert(k_j3()[1] != k_j4()[1]);
            } else {
            }
        }
        lemma_slookup_at(m, k_j4(), 3);
        crate::json::lemma_num_dec_round_trip(self.j4);
        assert(sget_dec(m, k_j4()) == Some(self.j4));
        // field `j5`
        assert(m[4].0 == k_j5());
        assert forall|j: int| 0 <= j < 4 implies m[j].0 != k_j5() by {
            if j == 0 {
                assert(k_j1()[1] != k_j5()[1]);
            } else if j == 1 {
                assert(k_j2()[1] != k_j5()[1]);
            } else if j == 2 {
                assert(k_j3()[1] != k_j5()[1]);
            } else if j == 3 {
                assert(k_j4()[1] != k_j5()[1]);
            } else {
            }
        }
        lemma_slookup_at(m, k_j5(), 4);
        crate::json::lemma_num_dec_round_trip(self.j5);
        assert(sget_dec(m, k_j5()) == Some(self.j5));
        // field `j6`
        assert(m[5].0 == k_j6());
        assert forall|j: int| 0 <= j < 5 implies m[j].0 != k_j6() by {
            if j == 0 {
                assert(k_j1()[1] != k_j6()[1]);
            } else if j == 1 {
                assert(k_j2()[1] != k_j6()[1]);
            } else if j == 2 {
                assert(k_j3()[1] != k_j6()[1]);
            } else if j == 3 {
                assert(k_j4()[1] != k_j6()[1]);
            } else if j == 4 {
                assert(k_j5()[1] != k_j6()[1]);
            } else {
            }
        }
        lemma_slookup_at(m, k_j6(), 5);
        crate::json::lemma_num_dec_round_trip(self.j6);
        assert(sget_dec(m, k_j6()) == Some(self.j6));
        // field `j7`
        assert(m[6].0 == k_j7());
        assert forall|j: int| 0 <= j < 6 implies m[j].0 != k_j7() by {
            if j == 0 {
                assert(k_j1()[1] != k_j7()[1]);
            } else if j == 1 {
                assert(k_j2()[1] != k_j7()[1]);
            } else if j == 2 {
                assert(k_j3()[1] != k_j7()[1]);
            } else if j == 3 {
                assert(k_j4()[1] != k_j7()[1]);
            } else if j == 4 {
                assert(k_j5()[1] != k_j7()[1]);
            } else if j == 5 {
                assert(k_j6()[1] != k_j7()[1]);
            } else {
            }
        }
        lemma_slookup_at(m, k_j7(), 6);
        crate::json::lemma_num_dec_round_trip(self.j7);
        assert(sget_dec(m, k_j7()) == Some(self.j7));
        // field `j8`
        assert(m[7].0 == k_j8());
        assert forall|j: int| 0 <= j < 7 implies m[j].0 != k_j8() by {
            if j == 0 {
                assert(k_j1()[1] != k_j8()[1]);
            } else if j == 1 {
                assert(k_j2()[1] != k_j8()[1]);
            } else if j == 2 {
                assert(k_j3()[1] != k_j8()[1]);
            } else if j == 3 {
                assert(k_j4()[1] != k_j8()[1]);
            } else if j == 4 {
                assert(k_j5()[1] != k_j8()[1]);
            } else if j == 5 {
                assert(k_j6()[1] != k_j8()[1]);
            } else if j == 6 {
                assert(k_j7()[1] != k_j8()[1]);
            } else {
            }
        }
        lemma_slookup_at(m, k_j8(), 7);
        crate::json::lemma_num_dec_round_trip(self.j8);
        assert(sget_dec(m, k_j8()) == Some(self.j8));
        // field `j9`
        assert(m[8].0 == k_j9());
        assert forall|j: int| 0 <= j < 8 implies m[j].0 != k_j9() by {
            if j == 0 {
                assert(k_j1()[1] != k_j9()[1]);
            } else if j == 1 {
                assert(k_j2()[1] != k_j9()[1]);
            } else if j == 2 {
                assert(k_j3()[1] != k_j9()[1]);
            } else if j == 3 {
                assert(k_j4()[1] != k_j9()[1]);
            } else if j == 4 {
                assert(k_j5()[1] != k_j9()[1]);
            } else if j == 5 {
                assert(k_j6()[1] != k_j9()[1]);
            } else if j == 6 {
                assert(k_j7()[1] != k_j9()[1]);
            } else if j == 7 {
                assert(k_j8()[1] != k_j9()[1]);
            } else {
            }
        }
        lemma_slookup_at(m, k_j9(), 8);
        crate::json::lemma_num_dec_round_trip(self.j9);
        assert(sget_dec(m, k_j9()) == Some(self.j9));
        assert(Self::sdecode(m) == Some(self));
    }

}

impl FrameData {
    /// The wire pairs of this value, in declaration order.
    pub open spec fn jpairs(self) -> Seq<(Seq<u8>, JValM)> {
        seq![
            (k_fx(), JValM::Num(jnum_of_dec(self.x))),
            (k_fy(), JValM::Num(jnum_of_dec(self.y))),
            (k_fz(), JValM::Num(jnum_of_dec(self.z))),
            (k_fw(), JValM::Num(jnum_of_dec(self.w))),
            (k_fp(), JValM::Num(jnum_of_dec(self.p))),
            (k_fr(), JValM::Num(jnum_of_dec(self.r))),
        ]
    }

    pub open spec fn wf(self) -> bool {
        self.x.wf() && self.y.wf() && self.z.wf() && self.w.wf() && self.p.wf() && self.r.wf()
    }

    /// Reads this value out of an object's pairs, by key;
    /// unknown pairs are ignored, a missing or ill-typed field fails.
    pub open spec fn sdecode(m: Seq<(Seq<u8>, JValM)>) -> Option<FrameData> {
        match sget_dec(m, k_fx()) {
            Some(x) => 
            match sget_dec(m, k_fy()) {
                Some(y) => 
                match sget_dec(m, k_fz()) {
                    Some(z) => 
                    match sget_dec(m, k_fw()) {
                        Some(w) => 
                        match sget_dec(m, k_fp()) {
                            Some(p) => 
                            match sget_dec(m, k_fr()) {
                                Some(r) => 
                                Some(FrameData { x, y, z, w, p, r }),
                                None => None,
                            },
                            None => None,
                        },
                        None => None,
                    },
                    None => None,
                },
                None => None,
            },
            None => None,
        }
    }

    pub fn push_pairs(&self, out: &mut Vec<(Vec<u8>, JVal)>)
        requires
            self.wf(),
        ensures
            model_pairs(final(out)@, 0) == model_pairs(old(out)@, 0) + self.jpairs(),
    {
        push_field_dec(out, key_fx(), self.x);
        push_field_dec(out, key_fy(), self.y);
        push_field_dec(out, key_fz(), self.z);
        push_field_dec(out, key_fw(), self.w);
        push_field_dec(out, key_fp(), self.p);
        push_field_dec(out, key_fr(), self.r);
        proof {
            assert(model_pairs(out@, 0) =~= model_pairs(old(out)@, 0) + self.jpairs());
        }
    }

    pub fn from_pairs(pairs: &Vec<(Vec<u8>, JVal)>) -> (r: Option<FrameData>)
        ensures
            r == Self::sdecode(model_pairs(pairs@, 0)),
    {
        let x = match get_dec(pairs, key_fx().as_slice()) {
            Some(v) => v,
            None => {
                return None;
            },
        };
        let y = match get_dec(pairs, key_fy().as_slice()) {
            Some(v) => v,
            None => {
                return None;
            },
        };
        let z = match get_dec(pairs, key_fz().as_slice()) {
            Some(v) => v,
            None => {
                return None;
            },
        };
        let w = match get_dec(pairs, key_fw().as_slice()) {
            Some(v) => v,
            None => {
                return None;
            },
        };
        let p = match get_dec(pairs, key_fp().as_slice()) {
            Some(v) => v,
            None => {
                return None;
            },
        };
        let r = match get_dec(pairs, key_fr().as_slice()) {
            Some(v) => v,
            None => {
                return None;
            },
        };
        Some(FrameData { x, y, z, w, p, r })
    }

    pub proof fn lemma_wf(self)
        requires
            self.wf(),
        ensures
            jpairs_wf(self.jpairs(), 0),
    {
        let m = self.jpairs();
        k_fx_ok();
        k_fy_ok();
        k_fz_ok();
        k_fw_ok();
        k_fp_ok();
        k_fr_ok();
        crate::json::lemma_num_dec_round_trip(self.x);
        crate::json::lemma_num_dec_round_trip(self.y);
        crate::json::lemma_num_dec_round_trip(self.z);
        crate::json::lemma_num_dec_round_trip(self.w);
        crate::json::lemma_num_dec_round_trip(self.p);
        crate::json::lemma_num_dec_round_trip(self.r);
        assert(jval_wf(JValM::Num(jnum_of_dec(self.x))));
        assert(jval_wf(JValM::Num(jnum_of_dec(self.y))));
        assert(jval_wf(JValM::Num(jnum_of_dec(self.z))));
        assert(jval_wf(JValM::Num(jnum_of_dec(self.w))));
        assert(jval_wf(JValM::Num(jnum_of_dec(self.p))));
        assert(jval_wf(JValM::Num(jnum_of_dec(self.r))));
        assert(jpairs_wf(m, 6));
        assert(jpairs_wf(m, 5));
        assert(jpairs_wf(m, 4));
        assert(jpairs_wf(m, 3));
        assert(jpairs_wf(m, 2));
        assert(jpairs_wf(m, 1));
        assert(jpairs_wf(m, 0));
    }

    /// Reading back the pairs this value prints yields it again
    pub proof fn lemma_round_trip(self)
        requires
            self.wf(),
        ensures
            Self::sdecode(self.jpairs()) == Some(self),
    {
        let m = self.jpairs();
        // field `x`
        assert(m[0].0 == k_fx());
        lemma_slookup_at(m, k_fx(), 0);
        crate::json::lemma_num_dec_round_trip(self.x);
        assert(sget_dec(m, k_fx()) == Some(self.x));
        // field `y`
        assert(m[1].0 == k_fy());
        assert forall|j: int| 0 <= j < 1 implies m[j].0 != k_fy() by {
            if j == 0 {
                assert(k_fx()[0] != k_fy()[0]);
            } else {
            }
        }
        lemma_slookup_at(m, k_fy(), 1);
        crate::json::lemma_num_dec_round_trip(self.y);
        assert(sget_dec(m, k_fy()) == Some(self.y));
        // field `z`
        assert(m[2].0 == k_fz());
        assert forall|j: int| 0 <= j < 2 implies m[j].0 != k_fz() by {
            if j == 0 {
                assert(k_fx()[0] != k_fz()[0]);
            } else if j == 1 {
                assert(k_fy()[0] != k_fz()[0]);
            } else {
            }
        }
        lemma_slookup_at(m, k_fz(), 2);
        crate::json::lemma_num_dec_round_trip(self.z);
        assert(sget_dec(m, k_fz()) == Some(self.z));
        // field `w`
        assert(m[3].0 == k_fw());
        assert forall|j: int| 0 <= j < 3 implies m[j].0 != k_fw() by {
            if j == 0 {
                assert(k_fx()[0] != k_fw()[0]);
            } else if j == 1 {
                assert(k_fy()[0] != k_fw()[0]);
            } else if j == 2 {
                assert(k_fz()[0] != k_fw()[0]);
            } else {
            }
        }
        lemma_slookup_at(m, k_fw(), 3);
        crate::json::lemma_num_dec_round_trip(self.w);
        assert(sget_dec(m, k_fw()) == Some(self.w));
        // field `p`
        assert(m[4].0 == k_fp());
        assert forall|j: int| 0 <= j < 4 implies m[j].0 != k_fp() by {
            if j == 0 {
                assert(k_fx()[0] != k_fp()[0]);
            } else if j == 1 {
                assert(k_fy()[0] != k_fp()[0]);
            } else if j == 2 {
                assert(k_fz()[0] != k_fp()[0]);
            } else if j == 3 {
                assert(k_fw()[0] != k_fp()[0]);
            } else {
            }
        }
        lemma_slookup_at(m, k_fp(), 4);
        crate::json::lemma_num_dec_round_trip(self.p);
        assert(sget_dec(m, k_fp()) == Some(self.p));
        // field `r`
        assert(m[5].0 == k_fr());
        assert forall|j: int| 0 <= j < 5 implies m[j].0 != k_fr() by {
            if j == 0 {
                assert(k_fx()[0] != k_fr()[0]);
            } else if j == 1 {
                assert(k_fy()[0] != k_fr()[0]);
            } else if j == 2 {
                assert(k_fz()[0] != k_fr()[0]);
            } else if j == 3 {
                assert(k_fw()[0] != k_fr()[0]);
            } else if j == 4 {
                assert(k_fp()[0] != k_fr()[0]);
            } else {
            }
        }
        lemma_slookup_at(m, k_fr(), 5);
        crate::json::lemma_num_dec_round_trip(self.r);
        assert(sget_dec(m, k_fr()) == Some(self.r));
        assert(Self::sdecode(m) == Some(self));
    }

}

impl SpeedType {
    /// The wire spelling of this variant.
    pub open spec fn wire_name(self) -> Seq<u8> {
        match self {
            SpeedType::MMSec => k_v_mm_sec(),
            SpeedType::InchMin => k_v_inch_min(),
            SpeedType::Time => k_v_time(),
            SpeedType::MilliSeconds => k_v_m_sec(),
        }
    }

    /// The variant spelled `t`, if any.
    pub open spec fn from_wire(t: Seq<u8>) -> Option<SpeedType> {
        if t == k_v_mm_sec() {
            Some(SpeedType::MMSec)
        } else if t == k_v_inch_min() {
            Some(SpeedType::InchMin)
        } else if t == k_v_time() {
            Some(SpeedType::Time)
        } else if t == k_v_m_sec() {
            Some(SpeedType::MilliSeconds)
        } else {
            None
        }
    }

    pub fn wire_name_vec(&self) -> (r: Vec<u8>)
        ensures
            r@ == self.wire_name(),
    {
        match self {
            SpeedType::MMSec => key_v_mm_sec(),
            SpeedType::InchMin => key_v_inch_min(),
            SpeedType::Time => key_v_time(),
            SpeedType::MilliSeconds => key_v_m_sec(),
        }
    }

    pub fn parse_wire(t: &[u8]) -> (r: Option<SpeedType>)
        ensures
            r == Self::from_wire(t@),
    {
        if bytes_eq(t, key_v_mm_sec().as_slice()) {
            Some(SpeedType::MMSec)
        } else if bytes_eq(t, key_v_inch_min().as_slice()) {
            Some(SpeedType::InchMin)
        } else if bytes_eq(t, key_v_time().as_slice()) {
            Some(SpeedType::Time)
        } else if bytes_eq(t, key_v_m_sec().as_slice()) {
            Some(SpeedType::MilliSeconds)
        } else {
            None
        }
    }

    pub proof fn lemma_wire_name_ok(v: SpeedType)
        ensures
            str_ok(v.wire_name()),
    {
        k_v_mm_sec_ok();
        k_v_inch_min_ok();
        k_v_time_ok();
        k_v_m_sec_ok();
    }

    /// The spelling of a variant names that variant back.
    pub proof fn lemma_from_wire_round_trip(v: SpeedType)
        ensures
            Self::from_wire(v.wire_name()) == Some(v),
    {
        assert(k_v_mm_sec().len() != k_v_inch_min().len());
        assert(k_v_mm_sec().len() != k_v_time().len());
        assert(k_v_mm_sec().len() != k_v_m_sec().len());
        assert(k_v_inch_min().len() != k_v_time().len());
        assert(k_v_inch_min().len() != k_v_m_sec().len());
        assert(k_v_time()[0] != k_v_m_sec()[0]);
    }
}

impl TermType {
    /// The wire spelling of this variant.
    pub open spec fn wire_name(self) -> Seq<u8> {
        match self {
            TermType::FINE => k_v_fine(),
            TermType::CNT => k_v_cnt(),
            TermType::CR => k_v_cr(),
        }
    }

    /// The variant spelled `t`, if any.
    pub open spec fn from_wire(t: Seq<u8>) -> Option<TermType> {
        if t == k_v_fine() {
            Some(TermType::FINE)
        } else if t == k_v_cnt() {
            Some(TermType::CNT)
        } else if t == k_v_cr() {
            Some(TermType::CR)
        } else {
            None
        }
    }

    pub fn wire_name_vec(&self) -> (r: Vec<u8>)
        ensures
            r@ == self.wire_name(),
    {
        match self {
            TermType::FINE => key_v_fine(),
            TermType::CNT => key_v_cnt(),
            TermType::CR => key_v_cr(),
        }
    }

    pub fn parse_wire(t: &[u8]) -> (r: Option<TermType>)
        ensures
            r == Self::from_wire(t@),
    {
        if bytes_eq(t, key_v_fine().as_slice()) {
            Some(TermType::FINE)
        } else if bytes_eq(t, key_v_cnt().as_slice()) {
            Some(TermType::CNT)
        } else if bytes_eq(t, key_v_cr().as_slice()) {
            Some(TermType::CR)
        } else {
            None
        }
    }

    pub proof fn lemma_wire_name_ok(v: TermType)
        ensures
            str_ok(v.wire_name()),
    {
        k_v_fine_ok();
        k_v_cnt_ok();
        k_v_cr_ok();
    }

    /// The spelling of a variant names that variant back.
    pub proof fn lemma_from_wire_round_trip(v: TermType)
        ensures
            Self::from_wire(v.wire_name()) == Some(v),
    {
        assert(k_v_fine().len() != k_v_cnt().len());
        assert(k_v_fine().len() != k_v_cr().len());
        assert(k_v_cnt().len() != k_v_cr().len());
    }
}

impl OnOff {
    /// The wire spelling of this variant.
    pub open spec fn wire_name(self) -> Seq<u8> {
        match self {
            OnOff::ON => k_v_on(),
            OnOff::OFF => k_v_off(),
        }
    }

    /// The variant spelled `t`, if any.
    pub open spec fn from_wire(t: Seq<u8>) -> Option<OnOff> {
        if t == k_v_on() {
            Some(OnOff::ON)
        } else if t == k_v_off() {
            Some(OnOff::OFF)
        } else {
            None
        }
    }

    pub fn wire_name_vec(&self) -> (r: Vec<u8>)
        ensures
            r@ == self.wire_name(),
    {
        match self {
            OnOff::ON => key_v_on(),
            OnOff::OFF => key_v_off(),
        }
    }

    pub fn parse_wire(t: &[u8]) -> (r: Option<OnOff>)
        ensures
            r == Self::from_wire(t@),
    {
        if bytes_eq(t, key_v_on().as_slice()) {
            Some(OnOff::ON)
        } else if bytes_eq(t, key_v_off().as_slice()) {
            Some(OnOff::OFF)
        } else {
            None
        }
    }

    pub proof fn lemma_wire_name_ok(v: OnOff)
        ensures
            str_ok(v.wire_name()),
    {
        k_v_on_ok();
        k_v_off_ok();
    }

    /// The spelling of a variant names that variant back.
    pub proof fn lemma_from_wire_round_trip(v: OnOff)
        ensures
            Self::from_wire(v.wire_name()) == Some(v),
    {
        assert(k_v_on().len() != k_v_off().len());
    }
}

pub open spec fn sget_config(m: Seq<(Seq<u8>, JValM)>, key: Seq<u8>) -> Option<Configuration> {
    match sget_obj(m, key) {
        Some(q) => Configuration::sdecode(q),
        None => None,
    }
}

pub fn get_config(pairs: &Vec<(Vec<u8>, JVal)>, key: &[u8]) -> (r: Option<Configuration>)
    ensures
        r == sget_config(model_pairs(pairs@, 0), key@),
{
    match get_obj(pairs, key) {
        Some(q) => Configuration::from_pairs(q),
        None => None,
    }
}


pub open spec fn sget_pos(m: Seq<(Seq<u8>, JValM)>, key: Seq<u8>) -> Option<Position> {
    match sget_obj(m, key) {
        Some(q) => Position::sdecode(q),
        None => None,
    }
}

pub fn get_pos(pairs: &Vec<(Vec<u8>, JVal)>, key: &[u8]) -> (r: Option<Position>)
    ensures
        r == sget_pos(model_pairs(pairs@, 0), key@),
{
    match get_obj(pairs, key) {
        Some(q) => Position::from_pairs(q),
        None => None,
    }
}


pub open spec fn sget_joints(m: Seq<(Seq<u8>, JValM)>, key: Seq<u8>) -> Option<JointAngles> {
    match sget_obj(m, key) {
        Some(q) => JointAngles::sdecode(q),
        None => None,
    }
}

pub fn get_joints(pairs: &Vec<(Vec<u8>, JVal)>, key: &[u8]) -> (r: Option<JointAngles>)
    ensures
        r == sget_joints(model_pairs(pairs@, 0), key@),
{
    match get_obj(pairs, key) {
        Some(q) => JointAngles::from_pairs(q),
        None => None,
    }
}


pub open spec fn sget_framedata(m: Seq<(Seq<u8>, JValM)>, key: Seq<u8>) -> Option<FrameData> {
    match sget_obj(m, key) {
        Some(q) => FrameData::sdecode(q),
        None => None,
    }
}

pub fn get_framedata(pairs: &Vec<(Vec<u8>, JVal)>, key: &[u8]) -> (r: Option<FrameData>)
    ensures
        r == sget_framedata(model_pairs(pairs@, 0), key@),
{
    match get_obj(pairs, key) {
        Some(q) => FrameData::from_pairs(q),
        None => None,
    }
}


pub open spec fn sget_speedtype(m: Seq<(Seq<u8>, JValM)>, key: Seq<u8>) -> Option<SpeedType> {
    match sget_str(m, key) {
        Some(t) => SpeedType::from_wire(t),
        None => None,
    }
}

pub fn get_speedtype(pairs: &Vec<(Vec<u8>, JVal)>, key: &[u8]) -> (r: Option<SpeedType>)
    ensures
        r == sget_speedtype(model_pairs(pairs@, 0), key@),
{
    match get_str(pairs, key) {
        Some(t) => SpeedType::parse_wire(t.as_slice()),
        None => None,
    }
}


pub open spec fn sget_termtype(m: Seq<(Seq<u8>, JValM)>, key: Seq<u8>) -> Option<TermType> {
    match sget_str(m, key) {
        Some(t) => TermType::from_wire(t),
        None => None,
    }
}

pub fn get_termtype(pairs: &Vec<(Vec<u8>, JVal)>, key: &[u8]) -> (r: Option<TermType>)
    ensures
        r == sget_termtype(model_pairs(pairs@, 0), key@),
{
    match get_str(pairs, key) {
        Some(t) => TermType::parse_wire(t.as_slice()),
        None => None,
    }
}


pub open spec fn sget_onoff(m: Seq<(Seq<u8>, JValM)>, key: Seq<u8>) -> Option<OnOff> {
    match sget_str(m, key) {
        Some(t) => OnOff::from_wire(t),
        None => None,
    }
}

pub fn get_onoff(pairs: &Vec<(Vec<u8>, JVal)>, key: &[u8]) -> (r: Option<OnOff>)
    ensures
        r == sget_onoff(model_pairs(pairs@, 0), key@),
{
    match get_str(pairs, key) {
        Some(t) => OnOff::parse_wire(t.as_slice()),
        None => None,
    }
}



/// A group selector: the given value, or the default group 1.
pub open spec fn opt_or_one(g: Option<u8>) -> u8 {
    match g {
        Some(v) => v,
        None => 1,
    }
}

} // verus!
