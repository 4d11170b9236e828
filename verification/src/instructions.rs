//! Instruction packets: program steps that always carry a caller-assigned
//! sequence identifier, echoed back by their responses for correlation.

use vstd::prelude::*;
use crate::json::{
    model_pairs, jnum_of_nat, jnum_of_int, jnum_of_dec, JVal, JValM, sget_u8, sget_u16,
    sget_u32, sget_i8, sget_i16, sget_i32, sget_dec, sget_str, get_u8, get_u16, get_u32,
    get_i8, get_i16, get_i32, get_dec, get_str, jpairs_wf, jval_wf, str_ok, lemma_slookup_at,
};
use crate::keys::{
    k_configuration,
    k_configuration_ok,
    k_error_id,
    k_error_id_ok,
    k_frame_number,
    k_frame_number_ok,
    k_joint_angles,
    k_joint_angles_ok,
    k_port_number,
    k_port_number_ok,
    k_port_value,
    k_port_value_ok,
    k_position,
    k_position_ok,
    k_program_name,
    k_program_name_ok,
    k_schedule_number,
    k_schedule_number_ok,
    k_sequence_id,
    k_sequence_id_ok,
    k_speed,
    k_speed_ok,
    k_speed_type,
    k_speed_type_ok,
    k_tag_instruction,
    k_term_type,
    k_term_type_ok,
    k_term_value,
    k_term_value_ok,
    k_time,
    k_time_ok,
    k_tool_number,
    k_tool_number_ok,
    k_via_configuration,
    k_via_configuration_ok,
    k_via_position,
    k_via_position_ok,
    key_configuration,
    key_error_id,
    key_frame_number,
    key_joint_angles,
    key_port_number,
    key_port_value,
    key_position,
    key_program_name,
    key_schedule_number,
    key_sequence_id,
    key_speed,
    key_speed_type,
    key_term_type,
    key_term_value,
    key_time,
    key_tool_number,
    key_via_configuration,
    key_via_position,
};
use crate::wire::{
    push_field_u32, push_field_i32, push_field_dec, push_field_str, push_field_obj, OnOff,
    sget_config, sget_pos, sget_joints, sget_speedtype, sget_termtype, sget_onoff, get_config,
    get_pos, get_joints, get_speedtype, get_termtype, get_onoff, opt_or_one,
};
use crate::num::Dec;
use crate::{Configuration, Position, JointAngles, SpeedType, TermType};

verus! {


/// Wait for a digital input to reach a level.
#[derive(Debug, Clone, Copy, PartialEq, Eq, Structural)]
pub struct FrcWaitDIN {
    pub sequence_id: i32,
    pub port_number: u32,
    pub port_value: OnOff,
}

impl FrcWaitDIN {
    /// The wire pairs of this value, in declaration order.
    pub open spec fn jpairs(self) -> Seq<(Seq<u8>, JValM)> {
        seq![
            (k_sequence_id(), JValM::Num(jnum_of_int(self.sequence_id as int))),
            (k_port_number(), JValM::Num(jnum_of_nat(self.port_number as nat))),
            (k_port_value(), JValM::Str(self.port_value.wire_name())),
        ]
    }

    pub open spec fn wf(self) -> bool {
        true
    }

    /// Reads this value out of an object's pairs, by key;
    /// unknown pairs are ignored, a missing or ill-typed field fails.
    pub open spec fn sdecode(m: Seq<(Seq<u8>, JValM)>) -> Option<FrcWaitDIN> {
        match sget_i32(m, k_sequence_id()) {
            Some(sequence_id) => 
            match sget_u32(m, k_port_number()) {
                Some(port_number) => 
                match sget_onoff(m, k_port_value()) {
                    Some(port_value) => 
                    Some(FrcWaitDIN { sequence_id, port_number, port_value }),
                    None => None,
                },
                None => None,
            },
            None => None,
        }
    }

    pub fn push_pairs(&self, out: &mut Vec<(Vec<u8>, JVal)>)
        ensures
            model_pairs(final(out)@, 0) == model_pairs(old(out)@, 0) + self.jpairs(),
    {
        push_field_i32(out, key_sequence_id(), self.sequence_id as i32);
        push_field_u32(out, key_port_number(), self.port_number as u32);
        {
            let wn = self.port_value.wire_name_vec();
            push_field_str(out, key_port_value(), wn.as_slice());
        }
        proof {
            assert(model_pairs(out@, 0) =~= model_pairs(old(out)@, 0) + self.jpairs());
        }
    }

    pub fn from_pairs(pairs: &Vec<(Vec<u8>, JVal)>) -> (r: Option<FrcWaitDIN>)
        ensures
            r == Self::sdecode(model_pairs(pairs@, 0)),
    {
        let sequence_id = match get_i32(pairs, key_sequence_id().as_slice()) {
            Some(v) => v,
            None => {
                return None;
            },
        };
        let port_number = match get_u32(pairs, key_port_number().as_slice()) {
            Some(v) => v,
            None => {
                return None;
            },
        };
        let port_value = match get_onoff(pairs, key_port_value().as_slice()) {
            Some(v) => v,
            None => {
                return None;
            },
        };
        Some(FrcWaitDIN { sequence_id, port_number, port_value })
    }

    pub proof fn lemma_wf(self)
        ensures
            jpairs_wf(self.jpairs(), 0),
    {
        let m = self.jpairs();
        k_sequence_id_ok();
        k_port_number_ok();
        k_port_value_ok();
        crate::json::lemma_num_i64_round_trip(self.sequence_id as int);
        crate::json::lemma_num_u64_round_trip(self.port_number as nat);
        OnOff::lemma_wire_name_ok(self.port_value);
        assert(jval_wf(JValM::Num(jnum_of_int(self.sequence_id as int))));
        assert(jval_wf(JValM::Num(jnum_of_nat(self.port_number as nat))));
        assert(jval_wf(JValM::Str(self.port_value.wire_name())));
        assert(jpairs_wf(m, 3));
        assert(jpairs_wf(m, 2));
        assert(jpairs_wf(m, 1));
        assert(jpairs_wf(m, 0));
    }

    /// Reading back the pairs this value prints yields it again,
    /// whatever single pair (the discriminant) stands in front.
    pub proof fn lemma_round_trip(self, front: (Seq<u8>, JValM))
        requires
            front.0 == k_tag_instruction(),
        ensures
            Self::sdecode(seq![front] + self.jpairs()) == Some(self),
    {
        let m = seq![front] + self.jpairs();
        // field `sequence_id`
        assert(m[1].0 == k_sequence_id());
        assert forall|j: int| 0 <= j < 1 implies m[j].0 != k_sequence_id() by {
            if j == 0 {
                assert(k_tag_instruction().len() != k_sequence_id().len());
            } else {
            }
        }
        lemma_slookup_at(m, k_sequence_id(), 1);
        crate::json::lemma_num_i64_round_trip(self.sequence_id as int);
        assert(sget_i32(m, k_sequence_id()) == Some(self.sequence_id));
        // field `port_number`
        assert(m[2].0 == k_port_number());
        assert forall|j: int| 0 <= j < 2 implies m[j].0 != k_port_number() by {
            if j == 0 {
                assert(k_tag_instruction().len() != k_port_number().len());
            } else if j == 1 {
                assert(k_sequence_id()[0] != k_port_number()[0]);
            } else {
            }
        }
        lemma_slookup_at(m, k_port_number(), 2);
        crate::json::lemma_num_u64_round_trip(self.port_number as nat);
        assert(sget_u32(m, k_port_number()) == Some(self.port_number));
        // field `port_value`
        assert(m[3].0 == k_port_value());
        assert forall|j: int| 0 <= j < 3 implies m[j].0 != k_port_value() by {
            if j == 0 {
                assert(k_tag_instruction().len() != k_port_value().len());
            } else if j == 1 {
                assert(k_sequence_id().len() != k_port_value().len());
            } else if j == 2 {
                assert(k_port_number().len() != k_port_value().len());
            } else {
            }
        }
        lemma_slookup_at(m, k_port_value(), 3);
        OnOff::lemma_wire_name_ok(self.port_value);
        OnOff::lemma_from_wire_round_trip(self.port_value);
        assert(sget_onoff(m, k_port_value()) == Some(self.port_value));
        assert(Self::sdecode(m) == Some(self));
    }
    pub fn new(seq: i32, port_num: u32, port_val: OnOff) -> (r: FrcWaitDIN)
        ensures
            r == (FrcWaitDIN { sequence_id: seq, port_number: port_num, port_value: port_val }),
    {
        FrcWaitDIN { sequence_id: seq, port_number: port_num, port_value: port_val }
    }

}

/// Response to a wait-for-DIN instruction.
#[derive(Debug, Clone, Copy, PartialEq, Eq, Structural)]
pub struct FrcWaitDINResponse {
    pub error_id: u32,
    pub sequence_id: u32,
}

impl FrcWaitDINResponse {
    /// The wire pairs of this value, in declaration order.
    pub open spec fn jpairs(self) -> Seq<(Seq<u8>, JValM)> {
        seq![
            (k_error_id(), JValM::Num(jnum_of_nat(self.error_id as nat))),
            (k_sequence_id(), JValM::Num(jnum_of_nat(self.sequence_id as nat))),
        ]
    }

    pub open spec fn wf(self) -> bool {
        true
    }

    /// Reads this value out of an object's pairs, by key;
    /// unknown pairs are ignored, a missing or ill-typed field fails.
    pub open spec fn sdecode(m: Seq<(Seq<u8>, JValM)>) -> Option<FrcWaitDINResponse> {
        match sget_u32(m, k_error_id()) {
            Some(error_id) => 
            match sget_u32(m, k_sequence_id()) {
                Some(sequence_id) => 
                Some(FrcWaitDINResponse { error_id, sequence_id }),
                None => None,
            },
            None => None,
        }
    }

    pub fn push_pairs(&self, out: &mut Vec<(Vec<u8>, JVal)>)
        ensures
            model_pairs(final(out)@, 0) == model_pairs(old(out)@, 0) + self.jpairs(),
    {
        push_field_u32(out, key_error_id(), self.error_id as u32);
        push_field_u32(out, key_sequence_id(), self.sequence_id as u32);
        proof {
            assert(model_pairs(out@, 0) =~= model_pairs(old(out)@, 0) + self.jpairs());
        }
    }

    pub fn from_pairs(pairs: &Vec<(Vec<u8>, JVal)>) -> (r: Option<FrcWaitDINResponse>)
        ensures
            r == Self::sdecode(model_pairs(pairs@, 0)),
    {
        let error_id = match get_u32(pairs, key_error_id().as_slice()) {
            Some(v) => v,
            None => {
                return None;
            },
        };
        let sequence_id = match get_u32(pairs, key_sequence_id().as_slice()) {
            Some(v) => v,
            None => {
                return None;
            },
        };
        Some(FrcWaitDINResponse { error_id, sequence_id })
    }

    pub proof fn lemma_wf(self)
        ensures
            jpairs_wf(self.jpairs(), 0),
    {
        let m = self.jpairs();
        k_error_id_ok();
        k_sequence_id_ok();
        crate::json::lemma_num_u64_round_trip(self.error_id as nat);
        crate::json::lemma_num_u64_round_trip(self.sequence_id as nat);
        assert(jval_wf(JValM::Num(jnum_of_nat(self.error_id as nat))));
        assert(jval_wf(JValM::Num(jnum_of_nat(self.sequence_id as nat))));
        assert(jpairs_wf(m, 2));
        assert(jpairs_wf(m, 1));
        assert(jpairs_wf(m, 0));
    }

    /// Reading back the pairs this value prints yields it again,
    /// whatever single pair (the discriminant) stands in front.
    pub proof fn lemma_round_trip(self, front: (Seq<u8>, JValM))
        requires
            front.0 == k_tag_instruction(),
        ensures
            Self::sdecode(seq![front] + self.jpairs()) == Some(self),
    {
        let m = seq![front] + self.jpairs();
        // field `error_id`
        assert(m[1].0 == k_error_id());
        assert forall|j: int| 0 <= j < 1 implies m[j].0 != k_error_id() by {
            if j == 0 {
                assert(k_tag_instruction().len() != k_error_id().len());
            } else {
            }
        }
        lemma_slookup_at(m, k_error_id(), 1);
        crate::json::lemma_num_u64_round_trip(self.error_id as nat);
        assert(sget_u32(m, k_error_id()) == Some(self.error_id));
        // field `sequence_id`
        assert(m[2].0 == k_sequence_id());
        assert forall|j: int| 0 <= j < 2 implies m[j].0 != k_sequence_id() by {
            if j == 0 {
                assert(k_tag_instruction().len() != k_sequence_id().len());
            } else if j == 1 {
                assert(k_error_id().len() != k_sequence_id().len());
            } else {
            }
        }
        lemma_slookup_at(m, k_sequence_id(), 2);
        crate::json::lemma_num_u64_round_trip(self.sequence_id as nat);
        assert(sget_u32(m, k_sequence_id()) == Some(self.sequence_id));
        assert(Self::sdecode(m) == Some(self));
    }

}

/// Select a user frame.
#[derive(Debug, Clone, Copy, PartialEq, Eq, Structural)]
pub struct FrcSetUFrame {
    pub sequence_id: i32,
    pub frame_number: u8,
}

impl FrcSetUFrame {
    /// The wire pairs of this value, in declaration order.
    pub open spec fn jpairs(self) -> Seq<(Seq<u8>, JValM)> {
        seq![
            (k_sequence_id(), JValM::Num(jnum_of_int(self.sequence_id as int))),
            (k_frame_number(), JValM::Num(jnum_of_nat(self.frame_number as nat))),
        ]
    }

    pub open spec fn wf(self) -> bool {
        true
    }

    /// Reads this value out of an object's pairs, by key;
    /// unknown pairs are ignored, a missing or ill-typed field fails.
    pub open spec fn sdecode(m: Seq<(Seq<u8>, JValM)>) -> Option<FrcSetUFrame> {
        match sget_i32(m, k_sequence_id()) {
            Some(sequence_id) => 
            match sget_u8(m, k_frame_number()) {
                Some(frame_number) => 
                Some(FrcSetUFrame { sequence_id, frame_number }),
                None => None,
            },
            None => None,
        }
    }

    pub fn push_pairs(&self, out: &mut Vec<(Vec<u8>, JVal)>)
        ensures
            model_pairs(final(out)@, 0) == model_pairs(old(out)@, 0) + self.jpairs(),
    {
        push_field_i32(out, key_sequence_id(), self.sequence_id as i32);
        push_field_u32(out, key_frame_number(), self.frame_number as u32);
        proof {
            assert(model_pairs(out@, 0) =~= model_pairs(old(out)@, 0) + self.jpairs());
        }
    }

    pub fn from_pairs(pairs: &Vec<(Vec<u8>, JVal)>) -> (r: Option<FrcSetUFrame>)
        ensures
            r == Self::sdecode(model_pairs(pairs@, 0)),
    {
        let sequence_id = match get_i32(pairs, key_sequence_id().as_slice()) {
            Some(v) => v,
            None => {
                return None;
            },
        };
        let frame_number = match get_u8(pairs, key_frame_number().as_slice()) {
            Some(v) => v,
            None => {
                return None;
            },
        };
        Some(FrcSetUFrame { sequence_id, frame_number })
    }

    pub proof fn lemma_wf(self)
        ensures
            jpairs_wf(self.jpairs(), 0),
    {
        let m = self.jpairs();
        k_sequence_id_ok();
        k_frame_number_ok();
        crate::json::lemma_num_i64_round_trip(self.sequence_id as int);
        crate::json::lemma_num_u64_round_trip(self.frame_number as nat);
        assert(jval_wf(JValM::Num(jnum_of_int(self.sequence_id as int))));
        assert(jval_wf(JValM::Num(jnum_of_nat(self.frame_number as nat))));
        assert(jpairs_wf(m, 2));
        assert(jpairs_wf(m, 1));
        assert(jpairs_wf(m, 0));
    }

    /// Reading back the pairs this value prints yields it again,
    /// whatever single pair (the discriminant) stands in front.
    pub proof fn lemma_round_trip(self, front: (Seq<u8>, JValM))
        requires
            front.0 == k_tag_instruction(),
        ensures
            Self::sdecode(seq![front] + self.jpairs()) == Some(self),
    {
        let m = seq![front] + self.jpairs();
        // field `sequence_id`
        assert(m[1].0 == k_sequence_id());
        assert forall|j: int| 0 <= j < 1 implies m[j].0 != k_sequence_id() by {
            if j == 0 {
                assert(k_tag_instruction().len() != k_sequence_id().len());
            } else {
            }
        }
        lemma_slookup_at(m, k_sequence_id(), 1);
        crate::json::lemma_num_i64_round_trip(self.sequence_id as int);
        assert(sget_i32(m, k_sequence_id()) == Some(self.sequence_id));
        // field `frame_number`
        assert(m[2].0 == k_frame_number());
        assert forall|j: int| 0 <= j < 2 implies m[j].0 != k_frame_number() by {
            if j == 0 {
                assert(k_tag_instruction()[0] != k_frame_number()[0]);
            } else if j == 1 {
                assert(k_sequence_id().len() != k_frame_number().len());
            } else {
            }
        }
        lemma_slookup_at(m, k_frame_number(), 2);
        crate::json::lemma_num_u64_round_trip(self.frame_number as nat);
        assert(sget_u8(m, k_frame_number()) == Some(self.frame_number));
        assert(Self::sdecode(m) == Some(self));
    }
    pub fn new(seq: i32, frame_num: u8) -> (r: FrcSetUFrame)
        ensures
            r == (FrcSetUFrame { sequence_id: seq, frame_number: frame_num }),
    {
        FrcSetUFrame { sequence_id: seq, frame_number: frame_num }
    }

}

/// Response to a set-user-frame instruction.
#[derive(Debug, Clone, Copy, PartialEq, Eq, Structural)]
pub struct FrcSetUFrameResponse {
    pub error_id: u32,
    pub sequence_id: u32,
}

impl FrcSetUFrameResponse {
    /// The wire pairs of this value, in declaration order.
    pub open spec fn jpairs(self) -> Seq<(Seq<u8>, JValM)> {
        seq![
            (k_error_id(), JValM::Num(jnum_of_nat(self.error_id as nat))),
            (k_sequence_id(), JValM::Num(jnum_of_nat(self.sequence_id as nat))),
        ]
    }

    pub open spec fn wf(self) -> bool {
        true
    }

    /// Reads this value out of an object's pairs, by key;
    /// unknown pairs are ignored, a missing or ill-typed field fails.
    pub open spec fn sdecode(m: Seq<(Seq<u8>, JValM)>) -> Option<FrcSetUFrameResponse> {
        match sget_u32(m, k_error_id()) {
            Some(error_id) => 
            match sget_u32(m, k_sequence_id()) {
                Some(sequence_id) => 
                Some(FrcSetUFrameResponse { error_id, sequence_id }),
                None => None,
            },
            None => None,
        }
    }

    pub fn push_pairs(&self, out: &mut Vec<(Vec<u8>, JVal)>)
        ensures
            model_pairs(final(out)@, 0) == model_pairs(old(out)@, 0) + self.jpairs(),
    {
        push_field_u32(out, key_error_id(), self.error_id as u32);
        push_field_u32(out, key_sequence_id(), self.sequence_id as u32);
        proof {
            assert(model_pairs(out@, 0) =~= model_pairs(old(out)@, 0) + self.jpairs());
        }
    }

    pub fn from_pairs(pairs: &Vec<(Vec<u8>, JVal)>) -> (r: Option<FrcSetUFrameResponse>)
        ensures
            r == Self::sdecode(model_pairs(pairs@, 0)),
    {
        let error_id = match get_u32(pairs, key_error_id().as_slice()) {
            Some(v) => v,
            None => {
                return None;
            },
        };
        let sequence_id = match get_u32(pairs, key_sequence_id().as_slice()) {
            Some(v) => v,
            None => {
                return None;
            },
        };
        Some(FrcSetUFrameResponse { error_id, sequence_id })
    }

    pub proof fn lemma_wf(self)
        ensures
            jpairs_wf(self.jpairs(), 0),
    {
        let m = self.jpairs();
        k_error_id_ok();
        k_sequence_id_ok();
        crate::json::lemma_num_u64_round_trip(self.error_id as nat);
        crate::json::lemma_num_u64_round_trip(self.sequence_id as nat);
        assert(jval_wf(JValM::Num(jnum_of_nat(self.error_id as nat))));
        assert(jval_wf(JValM::Num(jnum_of_nat(self.sequence_id as nat))));
        assert(jpairs_wf(m, 2));
        assert(jpairs_wf(m, 1));
        assert(jpairs_wf(m, 0));
    }

    /// Reading back the pairs this value prints yields it again,
    /// whatever single pair (the discriminant) stands in front.
    pub proof fn lemma_round_trip(self, front: (Seq<u8>, JValM))
        requires
            front.0 == k_tag_instruction(),
        ensures
            Self::sdecode(seq![front] + self.jpairs()) == Some(self),
    {
        let m = seq![front] + self.jpairs();
        // field `error_id`
        assert(m[1].0 == k_error_id());
        assert forall|j: int| 0 <= j < 1 implies m[j].0 != k_error_id() by {
            if j == 0 {
                assert(k_tag_instruction().len() != k_error_id().len());
            } else {
            }
        }
        lemma_slookup_at(m, k_error_id(), 1);
        crate::json::lemma_num_u64_round_trip(self.error_id as nat);
        assert(sget_u32(m, k_error_id()) == Some(self.error_id));
        // field `sequence_id`
        assert(m[2].0 == k_sequence_id());
        assert forall|j: int| 0 <= j < 2 implies m[j].0 != k_sequence_id() by {
            if j == 0 {
                assert(k_tag_instruction().len() != k_sequence_id().len());
            } else if j == 1 {
                assert(k_error_id().len() != k_sequence_id().len());
            } else {
            }
        }
        lemma_slookup_at(m, k_sequence_id(), 2);
        crate::json::lemma_num_u64_round_trip(self.sequence_id as nat);
        assert(sget_u32(m, k_sequence_id()) == Some(self.sequence_id));
        assert(Self::sdecode(m) == Some(self));
    }

}

/// Select a user tool.
#[derive(Debug, Clone, Copy, PartialEq, Eq, Structural)]
pub struct FrcSetUTool {
    pub sequence_id: i32,
    pub tool_number: u8,
}

impl FrcSetUTool {
    /// The wire pairs of this value, in declaration order.
    pub open spec fn jpairs(self) -> Seq<(Seq<u8>, JValM)> {
        seq![
            (k_sequence_id(), JValM::Num(jnum_of_int(self.sequence_id as int))),
            (k_tool_number(), JValM::Num(jnum_of_nat(self.tool_number as nat))),
        ]
    }

    pub open spec fn wf(self) -> bool {
        true
    }

    /// Reads this value out of an object's pairs, by key;
    /// unknown pairs are ignored, a missing or ill-typed field fails.
    pub open spec fn sdecode(m: Seq<(Seq<u8>, JValM)>) -> Option<FrcSetUTool> {
        match sget_i32(m, k_sequence_id()) {
            Some(sequence_id) => 
            match sget_u8(m, k_tool_number()) {
                Some(tool_number) => 
                Some(FrcSetUTool { sequence_id, tool_number }),
                None => None,
            },
            None => None,
        }
    }

    pub fn push_pairs(&self, out: &mut Vec<(Vec<u8>, JVal)>)
        ensures
            model_pairs(final(out)@, 0) == model_pairs(old(out)@, 0) + self.jpairs(),
    {
        push_field_i32(out, key_sequence_id(), self.sequence_id as i32);
        push_field_u32(out, key_tool_number(), self.tool_number as u32);
        proof {
            assert(model_pairs(out@, 0) =~= model_pairs(old(out)@, 0) + self.jpairs());
        }
    }

    pub fn from_pairs(pairs: &Vec<(Vec<u8>, JVal)>) -> (r: Option<FrcSetUTool>)
        ensures
            r == Self::sdecode(model_pairs(pairs@, 0)),
    {
        let sequence_id = match get_i32(pairs, key_sequence_id().as_slice()) {
            Some(v) => v,
            None => {
                return None;
            },
        };
        let tool_number = match get_u8(pairs, key_tool_number().as_slice()) {
            Some(v) => v,
            None => {
                return None;
            },
        };
        Some(FrcSetUTool { sequence_id, tool_number })
    }

    pub proof fn lemma_wf(self)
        ensures
            jpairs_wf(self.jpairs(), 0),
    {
        let m = self.jpairs();
        k_sequence_id_ok();
        k_tool_number_ok();
        crate::json::lemma_num_i64_round_trip(self.sequence_id as int);
        crate::json::lemma_num_u64_round_trip(self.tool_number as nat);
        assert(jval_wf(JValM::Num(jnum_of_int(self.sequence_id as int))));
        assert(jval_wf(JValM::Num(jnum_of_nat(self.tool_number as nat))));
        assert(jpairs_wf(m, 2));
        assert(jpairs_wf(m, 1));
        assert(jpairs_wf(m, 0));
    }

    /// Reading back the pairs this value prints yields it again,
    /// whatever single pair (the discriminant) stands in front.
    pub proof fn lemma_round_trip(self, front: (Seq<u8>, JValM))
        requires
            front.0 == k_tag_instruction(),
        ensures
            Self::sdecode(seq![front] + self.jpairs()) == Some(self),
    {
        let m = seq![front] + self.jpairs();
        // field `sequence_id`
        assert(m[1].0 == k_sequence_id());
        assert forall|j: int| 0 <= j < 1 implies m[j].0 != k_sequence_id() by {
            if j == 0 {
                assert(k_tag_instruction().len() != k_sequence_id().len());
            } else {
            }
        }
        lemma_slookup_at(m, k_sequence_id(), 1);
        crate::json::lemma_num_i64_round_trip(self.sequence_id as int);
        assert(sget_i32(m, k_sequence_id()) == Some(self.sequence_id));
        // field `tool_number`
        assert(m[2].0 == k_tool_number());
        assert forall|j: int| 0 <= j < 2 implies m[j].0 != k_tool_number() by {
            if j == 0 {
                assert(k_tag_instruction().len() != k_tool_number().len());
            } else if j == 1 {
                assert(k_sequence_id()[0] != k_tool_number()[0]);
            } else {
            }
        }
        lemma_slookup_at(m, k_tool_number(), 2);
        crate::json::lemma_num_u64_round_trip(self.tool_number as nat);
        assert(sget_u8(m, k_tool_number()) == Some(self.tool_number));
        assert(Self::sdecode(m) == Some(self));
    }
    pub fn new(seq: i32, tool_num: u8) -> (r: FrcSetUTool)
        ensures
            r == (FrcSetUTool { sequence_id: seq, tool_number: tool_num }),
    {
        FrcSetUTool { sequence_id: seq, tool_number: tool_num }
    }

}

/// Response to a set-user-tool instruction.
#[derive(Debug, Clone, Copy, PartialEq, Eq, Structural)]
pub struct FrcSetUToolResponse {
    pub error_id: u32,
    pub sequence_id: i32,
}

impl FrcSetUToolResponse {
    /// The wire pairs of this value, in declaration order.
    pub open spec fn jpairs(self) -> Seq<(Seq<u8>, JValM)> {
        seq![
            (k_error_id(), JValM::Num(jnum_of_nat(self.error_id as nat))),
            (k_sequence_id(), JValM::Num(jnum_of_int(self.sequence_id as int))),
        ]
    }

    pub open spec fn wf(self) -> bool {
        true
    }

    /// Reads this value out of an object's pairs, by key;
    /// unknown pairs are ignored, a missing or ill-typed field fails.
    pub open spec fn sdecode(m: Seq<(Seq<u8>, JValM)>) -> Option<FrcSetUToolResponse> {
        match sget_u32(m, k_error_id()) {
            Some(error_id) => 
            match sget_i32(m, k_sequence_id()) {
                Some(sequence_id) => 
                Some(FrcSetUToolResponse { error_id, sequence_id }),
                None => None,
            },
            None => None,
        }
    }

    pub fn push_pairs(&self, out: &mut Vec<(Vec<u8>, JVal)>)
        ensures
            model_pairs(final(out)@, 0) == model_pairs(old(out)@, 0) + self.jpairs(),
    {
        push_field_u32(out, key_error_id(), self.error_id as u32);
        push_field_i32(out, key_sequence_id(), self.sequence_id as i32);
        proof {
            assert(model_pairs(out@, 0) =~= model_pairs(old(out)@, 0) + self.jpairs());
        }
    }

    pub fn from_pairs(pairs: &Vec<(Vec<u8>, JVal)>) -> (r: Option<FrcSetUToolResponse>)
        ensures
            r == Self::sdecode(model_pairs(pairs@, 0)),
    {
        let error_id = match get_u32(pairs, key_error_id().as_slice()) {
            Some(v) => v,
            None => {
                return None;
            },
        };
        let sequence_id = match get_i32(pairs, key_sequence_id().as_slice()) {
            Some(v) => v,
            None => {
                return None;
            },
        };
        Some(FrcSetUToolResponse { error_id, sequence_id })
    }

    pub proof fn lemma_wf(self)
        ensures
            jpairs_wf(self.jpairs(), 0),
    {
        let m = self.jpairs();
        k_error_id_ok();
        k_sequence_id_ok();
        crate::json::lemma_num_u64_round_trip(self.error_id as nat);
        crate::json::lemma_num_i64_round_trip(self.sequence_id as int);
        assert(jval_wf(JValM::Num(jnum_of_nat(self.error_id as nat))));
        assert(jval_wf(JValM::Num(jnum_of_int(self.sequence_id as int))));
        assert(jpairs_wf(m, 2));
        assert(jpairs_wf(m, 1));
        assert(jpairs_wf(m, 0));
    }

    /// Reading back the pairs this value prints yields it again,
    /// whatever single pair (the discriminant) stands in front.
    pub proof fn lemma_round_trip(self, front: (Seq<u8>, JValM))
        requires
            front.0 == k_tag_instruction(),
        ensures
            Self::sdecode(seq![front] + self.jpairs()) == Some(self),
    {
        let m = seq![front] + self.jpairs();
        // field `error_id`
        assert(m[1].0 == k_error_id());
        assert forall|j: int| 0 <= j < 1 implies m[j].0 != k_error_id() by {
            if j == 0 {
                assert(k_tag_instruction().len() != k_error_id().len());
            } else {
            }
        }
        lemma_slookup_at(m, k_error_id(), 1);
        crate::json::lemma_num_u64_round_trip(self.error_id as nat);
        assert(sget_u32(m, k_error_id()) == Some(self.error_id));
        // field `sequence_id`
        assert(m[2].0 == k_sequence_id());
        assert forall|j: int| 0 <= j < 2 implies m[j].0 != k_sequence_id() by {
            if j == 0 {
                assert(k_tag_instruction().len() != k_sequence_id().len());
            } else if j == 1 {
                assert(k_error_id().len() != k_sequence_id().len());
            } else {
            }
        }
        lemma_slookup_at(m, k_sequence_id(), 2);
        crate::json::lemma_num_i64_round_trip(self.sequence_id as int);
        assert(sget_i32(m, k_sequence_id()) == Some(self.sequence_id));
        assert(Self::sdecode(m) == Some(self));
    }

}

/// Wait for a time, in seconds.
#[derive(Debug, Clone, Copy, PartialEq, Eq, Structural)]
pub struct FrcWaitTime {
    pub sequence_id: i32,
    pub time: Dec,
}

impl FrcWaitTime {
    /// The wire pairs of this value, in declaration order.
    pub open spec fn jpairs(self) -> Seq<(Seq<u8>, JValM)> {
        seq![
            (k_sequence_id(), JValM::Num(jnum_of_int(self.sequence_id as int))),
            (k_time(), JValM::Num(jnum_of_dec(self.time))),
        ]
    }

    pub open spec fn wf(self) -> bool {
        self.time.wf()
    }

    /// Reads this value out of an object's pairs, by key;
    /// unknown pairs are ignored, a missing or ill-typed field fails.
    pub open spec fn sdecode(m: Seq<(Seq<u8>, JValM)>) -> Option<FrcWaitTime> {
        match sget_i32(m, k_sequence_id()) {
            Some(sequence_id) => 
            match sget_dec(m, k_time()) {
                Some(time) => 
                Some(FrcWaitTime { sequence_id, time }),
                None => None,
            },
            None => None,
        }
    }

    pub fn push_pairs(&self, out: &mut Vec<(Vec<u8>, JVal)>)
        requires
            self.wf(),
        ensures
            model_pairs(final(out)@, 0) == model_pairs(old(out)@, 0) + self.jpairs(),
    {
        push_field_i32(out, key_sequence_id(), self.sequence_id as i32);
        push_field_dec(out, key_time(), self.time);
        proof {
            assert(model_pairs(out@, 0) =~= model_pairs(old(out)@, 0) + self.jpairs());
        }
    }

    pub fn from_pairs(pairs: &Vec<(Vec<u8>, JVal)>) -> (r: Option<FrcWaitTime>)
        ensures
            r == Self::sdecode(model_pairs(pairs@, 0)),
    {
        let sequence_id = match get_i32(pairs, key_sequence_id().as_slice()) {
            Some(v) => v,
            None => {
                return None;
            },
        };
        let time = match get_dec(pairs, key_time().as_slice()) {
            Some(v) => v,
            None => {
                return None;
            },
        };
        Some(FrcWaitTime { sequence_id, time })
    }

    pub proof fn lemma_wf(self)
        requires
            self.wf(),
        ensures
            jpairs_wf(self.jpairs(), 0),
    {
        let m = self.jpairs();
        k_sequence_id_ok();
        k_time_ok();
        crate::json::lemma_num_i64_round_trip(self.sequence_id as int);
        crate::json::lemma_num_dec_round_trip(self.time);
        assert(jval_wf(JValM::Num(jnum_of_int(self.sequence_id as int))));
        assert(jval_wf(JValM::Num(jnum_of_dec(self.time))));
        assert(jpairs_wf(m, 2));
        assert(jpairs_wf(m, 1));
        assert(jpairs_wf(m, 0));
    }

    /// Reading back the pairs this value prints yields it again,
    /// whatever single pair (the discriminant) stands in front.
    pub proof fn lemma_round_trip(self, front: (Seq<u8>, JValM))
        requires
            self.wf(),
            front.0 == k_tag_instruction(),
        ensures
            Self::sdecode(seq![front] + self.jpairs()) == Some(self),
    {
        let m = seq![front] + self.jpairs();
        // field `sequence_id`
        assert(m[1].0 == k_sequence_id());
        assert forall|j: int| 0 <= j < 1 implies m[j].0 != k_sequence_id() by {
            if j == 0 {
                assert(k_tag_instruction().len() != k_sequence_id().len());
            } else {
            }
        }
        lemma_slookup_at(m, k_sequence_id(), 1);
        crate::json::lemma_num_i64_round_trip(self.sequence_id as int);
        assert(sget_i32(m, k_sequence_id()) == Some(self.sequence_id));
        // field `time`
        assert(m[2].0 == k_time());
        assert forall|j: int| 0 <= j < 2 implies m[j].0 != k_time() by {
            if j == 0 {
                assert(k_tag_instruction().len() != k_time().len());
            } else if j == 1 {
                assert(k_sequence_id().len() != k_time().len());
            } else {
            }
        }
        lemma_slookup_at(m, k_time(), 2);
        crate::json::lemma_num_dec_round_trip(self.time);
        assert(sget_dec(m, k_time()) == Some(self.time));
        assert(Self::sdecode(m) == Some(self));
    }
    pub fn new(seq: i32, time: Dec) -> (r: FrcWaitTime)
        ensures
            r == (FrcWaitTime { sequence_id: seq, time: time }),
    {
        FrcWaitTime { sequence_id: seq, time: time }
    }

}

/// Response to a wait-time instruction.
#[derive(Debug, Clone, Copy, PartialEq, Eq, Structural)]
pub struct FrcWaitTimeResponse {
    pub error_id: u32,
    pub sequence_id: i32,
}

impl FrcWaitTimeResponse {
    /// The wire pairs of this value, in declaration order.
    pub open spec fn jpairs(self) -> Seq<(Seq<u8>, JValM)> {
        seq![
            (k_error_id(), JValM::Num(jnum_of_nat(self.error_id as nat))),
            (k_sequence_id(), JValM::Num(jnum_of_int(self.sequence_id as int))),
        ]
    }

    pub open spec fn wf(self) -> bool {
        true
    }

    /// Reads this value out of an object's pairs, by key;
    /// unknown pairs are ignored, a missing or ill-typed field fails.
    pub open spec fn sdecode(m: Seq<(Seq<u8>, JValM)>) -> Option<FrcWaitTimeResponse> {
        match sget_u32(m, k_error_id()) {
            Some(error_id) => 
            match sget_i32(m, k_sequence_id()) {
                Some(sequence_id) => 
                Some(FrcWaitTimeResponse { error_id, sequence_id }),
                None => None,
            },
            None => None,
        }
    }

    pub fn push_pairs(&self, out: &mut Vec<(Vec<u8>, JVal)>)
        ensures
            model_pairs(final(out)@, 0) == model_pairs(old(out)@, 0) + self.jpairs(),
    {
        push_field_u32(out, key_error_id(), self.error_id as u32);
        push_field_i32(out, key_sequence_id(), self.sequence_id as i32);
        proof {
            assert(model_pairs(out@, 0) =~= model_pairs(old(out)@, 0) + self.jpairs());
        }
    }

    pub fn from_pairs(pairs: &Vec<(Vec<u8>, JVal)>) -> (r: Option<FrcWaitTimeResponse>)
        ensures
            r == Self::sdecode(model_pairs(pairs@, 0)),
    {
        let error_id = match get_u32(pairs, key_error_id().as_slice()) {
            Some(v) => v,
            None => {
                return None;
            },
        };
        let sequence_id = match get_i32(pairs, key_sequence_id().as_slice()) {
            Some(v) => v,
            None => {
                return None;
            },
        };
        Some(FrcWaitTimeResponse { error_id, sequence_id })
    }

    pub proof fn lemma_wf(self)
        ensures
            jpairs_wf(self.jpairs(), 0),
    {
        let m = self.jpairs();
        k_error_id_ok();
        k_sequence_id_ok();
        crate::json::lemma_num_u64_round_trip(self.error_id as nat);
        crate::json::lemma_num_i64_round_trip(self.sequence_id as int);
        assert(jval_wf(JValM::Num(jnum_of_nat(self.error_id as nat))));
        assert(jval_wf(JValM::Num(jnum_of_int(self.sequence_id as int))));
        assert(jpairs_wf(m, 2));
        assert(jpairs_wf(m, 1));
        assert(jpairs_wf(m, 0));
    }

    /// Reading back the pairs this value prints yields it again,
    /// whatever single pair (the discriminant) stands in front.
    pub proof fn lemma_round_trip(self, front: (Seq<u8>, JValM))
        requires
            front.0 == k_tag_instruction(),
        ensures
            Self::sdecode(seq![front] + self.jpairs()) == Some(self),
    {
        let m = seq![front] + self.jpairs();
        // field `error_id`
        assert(m[1].0 == k_error_id());
        assert forall|j: int| 0 <= j < 1 implies m[j].0 != k_error_id() by {
            if j == 0 {
                assert(k_tag_instruction().len() != k_error_id().len());
            } else {
            }
        }
        lemma_slookup_at(m, k_error_id(), 1);
        crate::json::lemma_num_u64_round_trip(self.error_id as nat);
        assert(sget_u32(m, k_error_id()) == Some(self.error_id));
        // field `sequence_id`
        assert(m[2].0 == k_sequence_id());
        assert forall|j: int| 0 <= j < 2 implies m[j].0 != k_sequence_id() by {
            if j == 0 {
                assert(k_tag_instruction().len() != k_sequence_id().len());
            } else if j == 1 {
                assert(k_error_id().len() != k_sequence_id().len());
            } else {
            }
        }
        lemma_slookup_at(m, k_sequence_id(), 2);
        crate::json::lemma_num_i64_round_trip(self.sequence_id as int);
        assert(sget_i32(m, k_sequence_id()) == Some(self.sequence_id));
        assert(Self::sdecode(m) == Some(self));
    }

}

/// Select a payload schedule.
#[derive(Debug, Clone, Copy, PartialEq, Eq, Structural)]
pub struct FrcSetPayLoad {
    pub sequence_id: i32,
    pub schedule_number: u8,
}

impl FrcSetPayLoad {
    /// The wire pairs of this value, in declaration order.
    pub open spec fn jpairs(self) -> Seq<(Seq<u8>, JValM)> {
        seq![
            (k_sequence_id(), JValM::Num(jnum_of_int(self.sequence_id as int))),
            (k_schedule_number(), JValM::Num(jnum_of_nat(self.schedule_number as nat))),
        ]
    }

    pub open spec fn wf(self) -> bool {
        true
    }

    /// Reads this value out of an object's pairs, by key;
    /// unknown pairs are ignored, a missing or ill-typed field fails.
    pub open spec fn sdecode(m: Seq<(Seq<u8>, JValM)>) -> Option<FrcSetPayLoad> {
        match sget_i32(m, k_sequence_id()) {
            Some(sequence_id) => 
            match sget_u8(m, k_schedule_number()) {
                Some(schedule_number) => 
                Some(FrcSetPayLoad { sequence_id, schedule_number }),
                None => None,
            },
            None => None,
        }
    }

    pub fn push_pairs(&self, out: &mut Vec<(Vec<u8>, JVal)>)
        ensures
            model_pairs(final(out)@, 0) == model_pairs(old(out)@, 0) + self.jpairs(),
    {
        push_field_i32(out, key_sequence_id(), self.sequence_id as i32);
        push_field_u32(out, key_schedule_number(), self.schedule_number as u32);
        proof {
            assert(model_pairs(out@, 0) =~= model_pairs(old(out)@, 0) + self.jpairs());
        }
    }

    pub fn from_pairs(pairs: &Vec<(Vec<u8>, JVal)>) -> (r: Option<FrcSetPayLoad>)
        ensures
            r == Self::sdecode(model_pairs(pairs@, 0)),
    {
        let sequence_id = match get_i32(pairs, key_sequence_id().as_slice()) {
            Some(v) => v,
            None => {
                return None;
            },
        };
        let schedule_number = match get_u8(pairs, key_schedule_number().as_slice()) {
            Some(v) => v,
            None => {
                return None;
            },
        };
        Some(FrcSetPayLoad { sequence_id, schedule_number })
    }

    pub proof fn lemma_wf(self)
        ensures
            jpairs_wf(self.jpairs(), 0),
    {
        let m = self.jpairs();
        k_sequence_id_ok();
        k_schedule_number_ok();
        crate::json::lemma_num_i64_round_trip(self.sequence_id as int);
        crate::json::lemma_num_u64_round_trip(self.schedule_number as nat);
        assert(jval_wf(JValM::Num(jnum_of_int(self.sequence_id as int))));
        assert(jval_wf(JValM::Num(jnum_of_nat(self.schedule_number as nat))));
        assert(jpairs_wf(m, 2));
        assert(jpairs_wf(m, 1));
        assert(jpairs_wf(m, 0));
    }

    /// Reading back the pairs this value prints yields it again,
    /// whatever single pair (the discriminant) stands in front.
    pub proof fn lemma_round_trip(self, front: (Seq<u8>, JValM))
        requires
            front.0 == k_tag_instruction(),
        ensures
            Self::sdecode(seq![front] + self.jpairs()) == Some(self),
    {
        let m = seq![front] + self.jpairs();
        // field `sequence_id`
        assert(m[1].0 == k_sequence_id());
        assert forall|j: int| 0 <= j < 1 implies m[j].0 != k_sequence_id() by {
            if j == 0 {
                assert(k_tag_instruction().len() != k_sequence_id().len());
            } else {
            }
        }
        lemma_slookup_at(m, k_sequence_id(), 1);
        crate::json::lemma_num_i64_round_trip(self.sequence_id as int);
        assert(sget_i32(m, k_sequence_id()) == Some(self.sequence_id));
        // field `schedule_number`
        assert(m[2].0 == k_schedule_number());
        assert forall|j: int| 0 <= j < 2 implies m[j].0 != k_schedule_number() by {
            if j == 0 {
                assert(k_tag_instruction().len() != k_schedule_number().len());
            } else if j == 1 {
                assert(k_sequence_id().len() != k_schedule_number().len());
            } else {
            }
        }
        lemma_slookup_at(m, k_schedule_number(), 2);
        crate::json::lemma_num_u64_round_trip(self.schedule_number as nat);
        assert(sget_u8(m, k_schedule_number()) == Some(self.schedule_number));
        assert(Self::sdecode(m) == Some(self));
    }
    pub fn new(seq: i32, schedule_num: u8) -> (r: FrcSetPayLoad)
        ensures
            r == (FrcSetPayLoad { sequence_id: seq, schedule_number: schedule_num }),
    {
        FrcSetPayLoad { sequence_id: seq, schedule_number: schedule_num }
    }

}

/// Response to a set-payload instruction.
#[derive(Debug, Clone, Copy, PartialEq, Eq, Structural)]
pub struct FrcSetPayLoadResponse {
    pub error_id: u32,
    pub sequence_id: i32,
}

impl FrcSetPayLoadResponse {
    /// The wire pairs of this value, in declaration order.
    pub open spec fn jpairs(self) -> Seq<(Seq<u8>, JValM)> {
        seq![
            (k_error_id(), JValM::Num(jnum_of_nat(self.error_id as nat))),
            (k_sequence_id(), JValM::Num(jnum_of_int(self.sequence_id as int))),
        ]
    }

    pub open spec fn wf(self) -> bool {
        true
    }

    /// Reads this value out of an object's pairs, by key;
    /// unknown pairs are ignored, a missing or ill-typed field fails.
    pub open spec fn sdecode(m: Seq<(Seq<u8>, JValM)>) -> Option<FrcSetPayLoadResponse> {
        match sget_u32(m, k_error_id()) {
            Some(error_id) => 
            match sget_i32(m, k_sequence_id()) {
                Some(sequence_id) => 
                Some(FrcSetPayLoadResponse { error_id, sequence_id }),
                None => None,
            },
            None => None,
        }
    }

    pub fn push_pairs(&self, out: &mut Vec<(Vec<u8>, JVal)>)
        ensures
            model_pairs(final(out)@, 0) == model_pairs(old(out)@, 0) + self.jpairs(),
    {
        push_field_u32(out, key_error_id(), self.error_id as u32);
        push_field_i32(out, key_sequence_id(), self.sequence_id as i32);
        proof {
            assert(model_pairs(out@, 0) =~= model_pairs(old(out)@, 0) + self.jpairs());
        }
    }

    pub fn from_pairs(pairs: &Vec<(Vec<u8>, JVal)>) -> (r: Option<FrcSetPayLoadResponse>)
        ensures
            r == Self::sdecode(model_pairs(pairs@, 0)),
    {
        let error_id = match get_u32(pairs, key_error_id().as_slice()) {
            Some(v) => v,
            None => {
                return None;
            },
        };
        let sequence_id = match get_i32(pairs, key_sequence_id().as_slice()) {
            Some(v) => v,
            None => {
                return None;
            },
        };
        Some(FrcSetPayLoadResponse { error_id, sequence_id })
    }

    pub proof fn lemma_wf(self)
        ensures
            jpairs_wf(self.jpairs(), 0),
    {
        let m = self.jpairs();
        k_error_id_ok();
        k_sequence_id_ok();
        crate::json::lemma_num_u64_round_trip(self.error_id as nat);
        crate::json::lemma_num_i64_round_trip(self.sequence_id as int);
        assert(jval_wf(JValM::Num(jnum_of_nat(self.error_id as nat))));
        assert(jval_wf(JValM::Num(jnum_of_int(self.sequence_id as int))));
        assert(jpairs_wf(m, 2));
        assert(jpairs_wf(m, 1));
        assert(jpairs_wf(m, 0));
    }

    /// Reading back the pairs this value prints yields it again,
    /// whatever single pair (the discriminant) stands in front.
    pub proof fn lemma_round_trip(self, front: (Seq<u8>, JValM))
        requires
            front.0 == k_tag_instruction(),
        ensures
            Self::sdecode(seq![front] + self.jpairs()) == Some(self),
    {
        let m = seq![front] + self.jpairs();
        // field `error_id`
        assert(m[1].0 == k_error_id());
        assert forall|j: int| 0 <= j < 1 implies m[j].0 != k_error_id() by {
            if j == 0 {
                assert(k_tag_instruction().len() != k_error_id().len());
            } else {
            }
        }
        lemma_slookup_at(m, k_error_id(), 1);
        crate::json::lemma_num_u64_round_trip(self.error_id as nat);
        assert(sget_u32(m, k_error_id()) == Some(self.error_id));
        // field `sequence_id`
        assert(m[2].0 == k_sequence_id());
        assert forall|j: int| 0 <= j < 2 implies m[j].0 != k_sequence_id() by {
            if j == 0 {
                assert(k_tag_instruction().len() != k_sequence_id().len());
            } else if j == 1 {
                assert(k_error_id().len() != k_sequence_id().len());
            } else {
            }
        }
        lemma_slookup_at(m, k_sequence_id(), 2);
        crate::json::lemma_num_i64_round_trip(self.sequence_id as int);
        assert(sget_i32(m, k_sequence_id()) == Some(self.sequence_id));
        assert(Self::sdecode(m) == Some(self));
    }

}

/// Call a named program.
#[derive(Debug, Clone, PartialEq, Eq)]
pub struct FrcCall {
    pub sequence_id: i32,
    pub program_name: Vec<u8>,
}

impl FrcCall {
    /// The wire pairs of this value, in declaration order.
    pub open spec fn jpairs(self) -> Seq<(Seq<u8>, JValM)> {
        seq![
            (k_sequence_id(), JValM::Num(jnum_of_int(self.sequence_id as int))),
            (k_program_name(), JValM::Str(self.program_name@)),
        ]
    }

    pub open spec fn wf(self) -> bool {
        str_ok(self.program_name@)
    }

    pub fn push_pairs(&self, out: &mut Vec<(Vec<u8>, JVal)>)
        requires
            self.wf(),
        ensures
            model_pairs(final(out)@, 0) == model_pairs(old(out)@, 0) + self.jpairs(),
    {
        push_field_i32(out, key_sequence_id(), self.sequence_id as i32);
        push_field_str(out, key_program_name(), self.program_name.as_slice());
        proof {
            assert(model_pairs(out@, 0) =~= model_pairs(old(out)@, 0) + self.jpairs());
        }
    }

    pub fn from_pairs(pairs: &Vec<(Vec<u8>, JVal)>) -> (r: Option<FrcCall>)
        ensures
            ({
                let m = model_pairs(pairs@, 0);
                match r {
                    Some(v) => sget_i32(m, k_sequence_id()) == Some(v.sequence_id) && sget_str(m, k_program_name()) == Some(v.program_name@),
                    None => sget_i32(m, k_sequence_id()) is None || sget_str(m, k_program_name()) is None,
                }
            }),
    {
        let sequence_id = match get_i32(pairs, key_sequence_id().as_slice()) {
            Some(v) => v,
            None => {
                return None;
            },
        };
        let program_name = match get_str(pairs, key_program_name().as_slice()) {
            Some(v) => v,
            None => {
                return None;
            },
        };
        Some(FrcCall { sequence_id, program_name })
    }

    pub proof fn lemma_wf(self)
        requires
            self.wf(),
        ensures
            jpairs_wf(self.jpairs(), 0),
    {
        let m = self.jpairs();
        k_sequence_id_ok();
        k_program_name_ok();
        crate::json::lemma_num_i64_round_trip(self.sequence_id as int);
        assert(jval_wf(JValM::Num(jnum_of_int(self.sequence_id as int))));
        assert(jval_wf(JValM::Str(self.program_name@)));
        assert(jpairs_wf(m, 2));
        assert(jpairs_wf(m, 1));
        assert(jpairs_wf(m, 0));
    }

    /// The printed pairs carry exactly the fields, whatever single
    /// pair (the discriminant) stands in front.
    pub proof fn lemma_round_trip(self, front: (Seq<u8>, JValM))
        requires
            self.wf(),
            front.0 == k_tag_instruction(),
        ensures
            ({
                let m = seq![front] + self.jpairs();
                sget_i32(m, k_sequence_id()) == Some(self.sequence_id) && sget_str(m, k_program_name()) == Some(self.program_name@)
            }),
    {
        let m = seq![front] + self.jpairs();
        // field `sequence_id`
        assert(m[1].0 == k_sequence_id());
        assert forall|j: int| 0 <= j < 1 implies m[j].0 != k_sequence_id() by {
            if j == 0 {
                assert(k_tag_instruction().len() != k_sequence_id().len());
            } else {
            }
        }
        lemma_slookup_at(m, k_sequence_id(), 1);
        crate::json::lemma_num_i64_round_trip(self.sequence_id as int);
        assert(sget_i32(m, k_sequence_id()) == Some(self.sequence_id));
        // field `program_name`
        assert(m[2].0 == k_program_name());
        assert forall|j: int| 0 <= j < 2 implies m[j].0 != k_program_name() by {
            if j == 0 {
                assert(k_tag_instruction()[0] != k_program_name()[0]);
            } else if j == 1 {
                assert(k_sequence_id().len() != k_program_name().len());
            } else {
            }
        }
        lemma_slookup_at(m, k_program_name(), 2);
        assert(sget_str(m, k_program_name()) == Some(self.program_name@));
    }
    pub fn new(seq: i32, program: Vec<u8>) -> (r: FrcCall)
        ensures
            r == (FrcCall { sequence_id: seq, program_name: program }),
    {
        FrcCall { sequence_id: seq, program_name: program }
    }

}

/// Response to a program call.
#[derive(Debug, Clone, Copy, PartialEq, Eq, Structural)]
pub struct FrcCallResponse {
    pub error_id: u32,
    pub sequence_id: i32,
}

impl FrcCallResponse {
    /// The wire pairs of this value, in declaration order.
    pub open spec fn jpairs(self) -> Seq<(Seq<u8>, JValM)> {
        seq![
            (k_error_id(), JValM::Num(jnum_of_nat(self.error_id as nat))),
            (k_sequence_id(), JValM::Num(jnum_of_int(self.sequence_id as int))),
        ]
    }

    pub open spec fn wf(self) -> bool {
        true
    }

    /// Reads this value out of an object's pairs, by key;
    /// unknown pairs are ignored, a missing or ill-typed field fails.
    pub open spec fn sdecode(m: Seq<(Seq<u8>, JValM)>) -> Option<FrcCallResponse> {
        match sget_u32(m, k_error_id()) {
            Some(error_id) => 
            match sget_i32(m, k_sequence_id()) {
                Some(sequence_id) => 
                Some(FrcCallResponse { error_id, sequence_id }),
                None => None,
            },
            None => None,
        }
    }

    pub fn push_pairs(&self, out: &mut Vec<(Vec<u8>, JVal)>)
        ensures
            model_pairs(final(out)@, 0) == model_pairs(old(out)@, 0) + self.jpairs(),
    {
        push_field_u32(out, key_error_id(), self.error_id as u32);
        push_field_i32(out, key_sequence_id(), self.sequence_id as i32);
        proof {
            assert(model_pairs(out@, 0) =~= model_pairs(old(out)@, 0) + self.jpairs());
        }
    }

    pub fn from_pairs(pairs: &Vec<(Vec<u8>, JVal)>) -> (r: Option<FrcCallResponse>)
        ensures
            r == Self::sdecode(model_pairs(pairs@, 0)),
    {
        let error_id = match get_u32(pairs, key_error_id().as_slice()) {
            Some(v) => v,
            None => {
                return None;
            },
        };
        let sequence_id = match get_i32(pairs, key_sequence_id().as_slice()) {
            Some(v) => v,
            None => {
                return None;
            },
        };
        Some(FrcCallResponse { error_id, sequence_id })
    }

    pub proof fn lemma_wf(self)
        ensures
            jpairs_wf(self.jpairs(), 0),
    {
        let m = self.jpairs();
        k_error_id_ok();
        k_sequence_id_ok();
        crate::json::lemma_num_u64_round_trip(self.error_id as nat);
        crate::json::lemma_num_i64_round_trip(self.sequence_id as int);
        assert(jval_wf(JValM::Num(jnum_of_nat(self.error_id as nat))));
        assert(jval_wf(JValM::Num(jnum_of_int(self.sequence_id as int))));
        assert(jpairs_wf(m, 2));
        assert(jpairs_wf(m, 1));
        assert(jpairs_wf(m, 0));
    }

    /// Reading back the pairs this value prints yields it again,
    /// whatever single pair (the discriminant) stands in front.
    pub proof fn lemma_round_trip(self, front: (Seq<u8>, JValM))
        requires
            front.0 == k_tag_instruction(),
        ensures
            Self::sdecode(seq![front] + self.jpairs()) == Some(self),
    {
        let m = seq![front] + self.jpairs();
        // field `error_id`
        assert(m[1].0 == k_error_id());
        assert forall|j: int| 0 <= j < 1 implies m[j].0 != k_error_id() by {
            if j == 0 {
                assert(k_tag_instruction().len() != k_error_id().len());
            } else {
            }
        }
        lemma_slookup_at(m, k_error_id(), 1);
        crate::json::lemma_num_u64_round_trip(self.error_id as nat);
        assert(sget_u32(m, k_error_id()) == Some(self.error_id));
        // field `sequence_id`
        assert(m[2].0 == k_sequence_id());
        assert forall|j: int| 0 <= j < 2 implies m[j].0 != k_sequence_id() by {
            if j == 0 {
                assert(k_tag_instruction().len() != k_sequence_id().len());
            } else if j == 1 {
                assert(k_error_id().len() != k_sequence_id().len());
            } else {
            }
        }
        lemma_slookup_at(m, k_sequence_id(), 2);
        crate::json::lemma_num_i64_round_trip(self.sequence_id as int);
        assert(sget_i32(m, k_sequence_id()) == Some(self.sequence_id));
        assert(Self::sdecode(m) == Some(self));
    }

}

/// Linear incremental motion.
#[derive(Debug, Clone, Copy, PartialEq, Eq, Structural)]
pub struct FrcLinearRelative {
    pub sequence_id: u32,
    pub configuration: Configuration,
    pub position: Position,
    pub speed_type: SpeedType,
    pub speed: u16,
    pub term_type: TermType,
    pub term_value: u8,
}

impl FrcLinearRelative {
    /// The wire pairs of this value, in declaration order.
    pub open spec fn jpairs(self) -> Seq<(Seq<u8>, JValM)> {
        seq![
            (k_sequence_id(), JValM::Num(jnum_of_nat(self.sequence_id as nat))),
            (k_configuration(), JValM::Obj(self.configuration.jpairs())),
            (k_position(), JValM::Obj(self.position.jpairs())),
            (k_speed_type(), JValM::Str(self.speed_type.wire_name())),
            (k_speed(), JValM::Num(jnum_of_nat(self.speed as nat))),
            (k_term_type(), JValM::Str(self.term_type.wire_name())),
            (k_term_value(), JValM::Num(jnum_of_nat(self.term_value as nat))),
        ]
    }

    pub open spec fn wf(self) -> bool {
        self.configuration.wf() && self.position.wf()
    }

    /// Reads this value out of an object's pairs, by key;
    /// unknown pairs are ignored, a missing or ill-typed field fails.
    pub open spec fn sdecode(m: Seq<(Seq<u8>, JValM)>) -> Option<FrcLinearRelative> {
        match sget_u32(m, k_sequence_id()) {
            Some(sequence_id) => 
            match sget_config(m, k_configuration()) {
                Some(configuration) => 
                match sget_pos(m, k_position()) {
                    Some(position) => 
                    match sget_speedtype(m, k_speed_type()) {
                        Some(speed_type) => 
                        match sget_u16(m, k_speed()) {
                            Some(speed) => 
                            match sget_termtype(m, k_term_type()) {
                                Some(term_type) => 
                                match sget_u8(m, k_term_value()) {
                                    Some(term_value) => 
                                    Some(FrcLinearRelative { sequence_id, configuration, position, speed_type, speed, term_type, term_value }),
                                    None => None,
                                },
                                None => None,
                            },
                            None => None,
                        },
                        None => None,
                    },
                    None => None,
                },
                None => None,
            },
            None => None,
        }
    }

    #[verifier::rlimit(60)]
    pub fn push_pairs(&self, out: &mut Vec<(Vec<u8>, JVal)>)
        requires
            self.wf(),
        ensures
            model_pairs(final(out)@, 0) == model_pairs(old(out)@, 0) + self.jpairs(),
    {
        push_field_u32(out, key_sequence_id(), self.sequence_id as u32);
        {
            let mut sub: Vec<(Vec<u8>, JVal)> = Vec::new();
            self.configuration.push_pairs(&mut sub);
            proof {
                assert(model_pairs(sub@, 0) =~= self.configuration.jpairs());
            }
            push_field_obj(out, key_configuration(), sub);
        }
        {
            let mut sub: Vec<(Vec<u8>, JVal)> = Vec::new();
            self.position.push_pairs(&mut sub);
            proof {
                assert(model_pairs(sub@, 0) =~= self.position.jpairs());
            }
            push_field_obj(out, key_position(), sub);
        }
        {
            let wn = self.speed_type.wire_name_vec();
            push_field_str(out, key_speed_type(), wn.as_slice());
        }
        push_field_u32(out, key_speed(), self.speed as u32);
        {
            let wn = self.term_type.wire_name_vec();
            push_field_str(out, key_term_type(), wn.as_slice());
        }
        push_field_u32(out, key_term_value(), self.term_value as u32);
        proof {
            assert(model_pairs(out@, 0) =~= model_pairs(old(out)@, 0) + self.jpairs());
        }
    }

    pub fn from_pairs(pairs: &Vec<(Vec<u8>, JVal)>) -> (r: Option<FrcLinearRelative>)
        ensures
            r == Self::sdecode(model_pairs(pairs@, 0)),
    {
        let sequence_id = match get_u32(pairs, key_sequence_id().as_slice()) {
            Some(v) => v,
            None => {
                return None;
            },
        };
        let configuration = match get_config(pairs, key_configuration().as_slice()) {
            Some(v) => v,
            None => {
                return None;
            },
        };
        let position = match get_pos(pairs, key_position().as_slice()) {
            Some(v) => v,
            None => {
                return None;
            },
        };
        let speed_type = match get_speedtype(pairs, key_speed_type().as_slice()) {
            Some(v) => v,
            None => {
                return None;
            },
        };
        let speed = match get_u16(pairs, key_speed().as_slice()) {
            Some(v) => v,
            None => {
                return None;
            },
        };
        let term_type = match get_termtype(pairs, key_term_type().as_slice()) {
            Some(v) => v,
            None => {
                return None;
            },
        };
        let term_value = match get_u8(pairs, key_term_value().as_slice()) {
            Some(v) => v,
            None => {
                return None;
            },
        };
        Some(FrcLinearRelative { sequence_id, configuration, position, speed_type, speed, term_type, term_value })
    }

    pub proof fn lemma_wf(self)
        requires
            self.wf(),
        ensures
            jpairs_wf(self.jpairs(), 0),
    {
        let m = self.jpairs();
        k_sequence_id_ok();
        k_configuration_ok();
        k_position_ok();
        k_speed_type_ok();
        k_speed_ok();
        k_term_type_ok();
        k_term_value_ok();
        crate::json::lemma_num_u64_round_trip(self.sequence_id as nat);
        self.configuration.lemma_wf();
        self.position.lemma_wf();
        SpeedType::lemma_wire_name_ok(self.speed_type);
        crate::json::lemma_num_u64_round_trip(self.speed as nat);
        TermType::lemma_wire_name_ok(self.term_type);
        crate::json::lemma_num_u64_round_trip(self.term_value as nat);
        assert(jval_wf(JValM::Num(jnum_of_nat(self.sequence_id as nat))));
        assert(jval_wf(JValM::Obj(self.configuration.jpairs())));
        assert(jval_wf(JValM::Obj(self.position.jpairs())));
        assert(jval_wf(JValM::Str(self.speed_type.wire_name())));
        assert(jval_wf(JValM::Num(jnum_of_nat(self.speed as nat))));
        assert(jval_wf(JValM::Str(self.term_type.wire_name())));
        assert(jval_wf(JValM::Num(jnum_of_nat(self.term_value as nat))));
        assert(jpairs_wf(m, 7));
        assert(jpairs_wf(m, 6));
        assert(jpairs_wf(m, 5));
        assert(jpairs_wf(m, 4));
        assert(jpairs_wf(m, 3));
        assert(jpairs_wf(m, 2));
        assert(jpairs_wf(m, 1));
        assert(jpairs_wf(m, 0));
    }

    /// Reading back the pairs this value prints yields it again,
    /// whatever single pair (the discriminant) stands in front.
    pub proof fn lemma_round_trip(self, front: (Seq<u8>, JValM))
        requires
            self.wf(),
            front.0 == k_tag_instruction(),
        ensures
            Self::sdecode(seq![front] + self.jpairs()) == Some(self),
    {
        let m = seq![front] + self.jpairs();
        // field `sequence_id`
        assert(m[1].0 == k_sequence_id());
        assert forall|j: int| 0 <= j < 1 implies m[j].0 != k_sequence_id() by {
            if j == 0 {
                assert(k_tag_instruction().len() != k_sequence_id().len());
            } else {
            }
        }
        lemma_slookup_at(m, k_sequence_id(), 1);
        crate::json::lemma_num_u64_round_trip(self.sequence_id as nat);
        assert(sget_u32(m, k_sequence_id()) == Some(self.sequence_id));
        // field `configuration`
        assert(m[2].0 == k_configuration());
        assert forall|j: int| 0 <= j < 2 implies m[j].0 != k_configuration() by {
            if j == 0 {
                assert(k_tag_instruction().len() != k_configuration().len());
            } else if j == 1 {
                assert(k_sequence_id().len() != k_configuration().len());
            } else {
            }
        }
        lemma_slookup_at(m, k_configuration(), 2);
        self.configuration.lemma_wf();
        self.configuration.lemma_round_trip();
        assert(sget_config(m, k_configuration()) == Some(self.configuration));
        // field `position`
        assert(m[3].0 == k_position());
        assert forall|j: int| 0 <= j < 3 implies m[j].0 != k_position() by {
            if j == 0 {
                assert(k_tag_instruction().len() != k_position().len());
            } else if j == 1 {
                assert(k_sequence_id().len() != k_position().len());
            } else if j == 2 {
                assert(k_configuration().len() != k_position().len());
            } else {
            }
        }
        lemma_slookup_at(m, k_position(), 3);
        self.position.lemma_wf();
        self.position.lemma_round_trip();
        assert(sget_pos(m, k_position()) == Some(self.position));
        // field `speed_type`
        assert(m[4].0 == k_speed_type());
        assert forall|j: int| 0 <= j < 4 implies m[j].0 != k_speed_type() by {
            if j == 0 {
                assert(k_tag_instruction().len() != k_speed_type().len());
            } else if j == 1 {
                assert(k_sequence_id().len() != k_speed_type().len());
            } else if j == 2 {
                assert(k_configuration().len() != k_speed_type().len());
            } else if j == 3 {
                assert(k_position().len() != k_speed_type().len());
            } else {
            }
        }
        lemma_slookup_at(m, k_speed_type(), 4);
        SpeedType::lemma_wire_name_ok(self.speed_type);
        SpeedType::lemma_from_wire_round_trip(self.speed_type);
        assert(sget_speedtype(m, k_speed_type()) == Some(self.speed_type));
        // field `speed`
        assert(m[5].0 == k_speed());
        assert forall|j: int| 0 <= j < 5 implies m[j].0 != k_speed() by {
            if j == 0 {
                assert(k_tag_instruction().len() != k_speed().len());
            } else if j == 1 {
                assert(k_sequence_id().len() != k_speed().len());
            } else if j == 2 {
                assert(k_configuration().len() != k_speed().len());
            } else if j == 3 {
                assert(k_position().len() != k_speed().len());
            } else if j == 4 {
                assert(k_speed_type().len() != k_speed().len());
            } else {
            }
        }
        lemma_slookup_at(m, k_speed(), 5);
        crate::json::lemma_num_u64_round_trip(self.speed as nat);
        assert(sget_u16(m, k_speed()) == Some(self.speed));
        // field `term_type`
        assert(m[6].0 == k_term_type());
        assert forall|j: int| 0 <= j < 6 implies m[j].0 != k_term_type() by {
            if j == 0 {
                assert(k_tag_instruction().len() != k_term_type().len());
            } else if j == 1 {
                assert(k_sequence_id().len() != k_term_type().len());
            } else if j == 2 {
                assert(k_configuration().len() != k_term_type().len());
            } else if j == 3 {
                assert(k_position()[0] != k_term_type()[0]);
            } else if j == 4 {
                assert(k_speed_type().len() != k_term_type().len());
            } else if j == 5 {
                assert(k_speed().len() != k_term_type().len());
            } else {
            }
        }
        lemma_slookup_at(m, k_term_type(), 6);
        TermType::lemma_wire_name_ok(self.term_type);
        TermType::lemma_from_wire_round_trip(self.term_type);
        assert(sget_termtype(m, k_term_type()) == Some(self.term_type));
        // field `term_value`
        assert(m[7].0 == k_term_value());
        assert forall|j: int| 0 <= j < 7 implies m[j].0 != k_term_value() by {
            if j == 0 {
                assert(k_tag_instruction().len() != k_term_value().len());
            } else if j == 1 {
                assert(k_sequence_id().len() != k_term_value().len());
            } else if j == 2 {
                assert(k_configuration().len() != k_term_value().len());
            } else if j == 3 {
                assert(k_position().len() != k_term_value().len());
            } else if j == 4 {
                assert(k_speed_type()[0] != k_term_value()[0]);
            } else if j == 5 {
                assert(k_speed().len() != k_term_value().len());
            } else if j == 6 {
                assert(k_term_type().len() != k_term_value().len());
            } else {
            }
        }
        lemma_slookup_at(m, k_term_value(), 7);
        crate::json::lemma_num_u64_round_trip(self.term_value as nat);
        assert(sget_u8(m, k_term_value()) == Some(self.term_value));
        assert(Self::sdecode(m) == Some(self));
    }
    pub fn new(sequenceid: u32, config: Configuration, pos: Position, speed_t: SpeedType, speed: u16, term_t: TermType, term_va: u8) -> (r: FrcLinearRelative)
        ensures
            r == (FrcLinearRelative { sequence_id: sequenceid, configuration: config, position: pos, speed_type: speed_t, speed: speed, term_type: term_t, term_value: term_va }),
    {
        FrcLinearRelative { sequence_id: sequenceid, configuration: config, position: pos, speed_type: speed_t, speed: speed, term_type: term_t, term_value: term_va }
    }

}

/// Response to a linear relative motion.
#[derive(Debug, Clone, Copy, PartialEq, Eq, Structural)]
pub struct FrcLinearRelativeResponse {
    pub error_id: u32,
    pub sequence_id: u32,
}

impl FrcLinearRelativeResponse {
    /// The wire pairs of this value, in declaration order.
    pub open spec fn jpairs(self) -> Seq<(Seq<u8>, JValM)> {
        seq![
            (k_error_id(), JValM::Num(jnum_of_nat(self.error_id as nat))),
            (k_sequence_id(), JValM::Num(jnum_of_nat(self.sequence_id as nat))),
        ]
    }

    pub open spec fn wf(self) -> bool {
        true
    }

    /// Reads this value out of an object's pairs, by key;
    /// unknown pairs are ignored, a missing or ill-typed field fails.
    pub open spec fn sdecode(m: Seq<(Seq<u8>, JValM)>) -> Option<FrcLinearRelativeResponse> {
        match sget_u32(m, k_error_id()) {
            Some(error_id) => 
            match sget_u32(m, k_sequence_id()) {
                Some(sequence_id) => 
                Some(FrcLinearRelativeResponse { error_id, sequence_id }),
                None => None,
            },
            None => None,
        }
    }

    pub fn push_pairs(&self, out: &mut Vec<(Vec<u8>, JVal)>)
        ensures
            model_pairs(final(out)@, 0) == model_pairs(old(out)@, 0) + self.jpairs(),
    {
        push_field_u32(out, key_error_id(), self.error_id as u32);
        push_field_u32(out, key_sequence_id(), self.sequence_id as u32);
        proof {
            assert(model_pairs(out@, 0) =~= model_pairs(old(out)@, 0) + self.jpairs());
        }
    }

    pub fn from_pairs(pairs: &Vec<(Vec<u8>, JVal)>) -> (r: Option<FrcLinearRelativeResponse>)
        ensures
            r == Self::sdecode(model_pairs(pairs@, 0)),
    {
        let error_id = match get_u32(pairs, key_error_id().as_slice()) {
            Some(v) => v,
            None => {
                return None;
            },
        };
        let sequence_id = match get_u32(pairs, key_sequence_id().as_slice()) {
            Some(v) => v,
            None => {
                return None;
            },
        };
        Some(FrcLinearRelativeResponse { error_id, sequence_id })
    }

    pub proof fn lemma_wf(self)
        ensures
            jpairs_wf(self.jpairs(), 0),
    {
        let m = self.jpairs();
        k_error_id_ok();
        k_sequence_id_ok();
        crate::json::lemma_num_u64_round_trip(self.error_id as nat);
        crate::json::lemma_num_u64_round_trip(self.sequence_id as nat);
        assert(jval_wf(JValM::Num(jnum_of_nat(self.error_id as nat))));
        assert(jval_wf(JValM::Num(jnum_of_nat(self.sequence_id as nat))));
        assert(jpairs_wf(m, 2));
        assert(jpairs_wf(m, 1));
        assert(jpairs_wf(m, 0));
    }

    /// Reading back the pairs this value prints yields it again,
    /// whatever single pair (the discriminant) stands in front.
    pub proof fn lemma_round_trip(self, front: (Seq<u8>, JValM))
        requires
            front.0 == k_tag_instruction(),
        ensures
            Self::sdecode(seq![front] + self.jpairs()) == Some(self),
    {
        let m = seq![front] + self.jpairs();
        // field `error_id`
        assert(m[1].0 == k_error_id());
        assert forall|j: int| 0 <= j < 1 implies m[j].0 != k_error_id() by {
            if j == 0 {
                assert(k_tag_instruction().len() != k_error_id().len());
            } else {
            }
        }
        lemma_slookup_at(m, k_error_id(), 1);
        crate::json::lemma_num_u64_round_trip(self.error_id as nat);
        assert(sget_u32(m, k_error_id()) == Some(self.error_id));
        // field `sequence_id`
        assert(m[2].0 == k_sequence_id());
        assert forall|j: int| 0 <= j < 2 implies m[j].0 != k_sequence_id() by {
            if j == 0 {
                assert(k_tag_instruction().len() != k_sequence_id().len());
            } else if j == 1 {
                assert(k_error_id().len() != k_sequence_id().len());
            } else {
            }
        }
        lemma_slookup_at(m, k_sequence_id(), 2);
        crate::json::lemma_num_u64_round_trip(self.sequence_id as nat);
        assert(sget_u32(m, k_sequence_id()) == Some(self.sequence_id));
        assert(Self::sdecode(m) == Some(self));
    }

}

/// Circular incremental motion through a via point.
#[derive(Debug, Clone, Copy, PartialEq, Eq, Structural)]
pub struct FrcCircularRelative {
    pub sequence_id: u32,
    pub configuration: Configuration,
    pub position: Position,
    pub via_configuration: Configuration,
    pub via_position: Position,
    pub speed_type: SpeedType,
    pub speed: u16,
    pub term_type: TermType,
    pub term_value: u8,
}

impl FrcCircularRelative {
    /// The wire pairs of this value, in declaration order.
    pub open spec fn jpairs(self) -> Seq<(Seq<u8>, JValM)> {
        seq![
            (k_sequence_id(), JValM::Num(jnum_of_nat(self.sequence_id as nat))),
            (k_configuration(), JValM::Obj(self.configuration.jpairs())),
            (k_position(), JValM::Obj(self.position.jpairs())),
            (k_via_configuration(), JValM::Obj(self.via_configuration.jpairs())),
            (k_via_position(), JValM::Obj(self.via_position.jpairs())),
            (k_speed_type(), JValM::Str(self.speed_type.wire_name())),
            (k_speed(), JValM::Num(jnum_of_nat(self.speed as nat))),
            (k_term_type(), JValM::Str(self.term_type.wire_name())),
            (k_term_value(), JValM::Num(jnum_of_nat(self.term_value as nat))),
        ]
    }

    pub open spec fn wf(self) -> bool {
        self.configuration.wf() && self.position.wf() && self.via_configuration.wf() && self.via_position.wf()
    }

    /// Reads this value out of an object's pairs, by key;
    /// unknown pairs are ignored, a missing or ill-typed field fails.
    pub open spec fn sdecode(m: Seq<(Seq<u8>, JValM)>) -> Option<FrcCircularRelative> {
        match sget_u32(m, k_sequence_id()) {
            Some(sequence_id) => 
            match sget_config(m, k_configuration()) {
                Some(configuration) => 
                match sget_pos(m, k_position()) {
                    Some(position) => 
                    match sget_config(m, k_via_configuration()) {
                        Some(via_configuration) => 
                        match sget_pos(m, k_via_position()) {
                            Some(via_position) => 
                            match sget_speedtype(m, k_speed_type()) {
                                Some(speed_type) => 
                                match sget_u16(m, k_speed()) {
                                    Some(speed) => 
                                    match sget_termtype(m, k_term_type()) {
                                        Some(term_type) => 
                                        match sget_u8(m, k_term_value()) {
                                            Some(term_value) => 
                                            Some(FrcCircularRelative { sequence_id, configuration, position, via_configuration, via_position, speed_type, speed, term_type, term_value }),
                                            None => None,
                                        },
                                        None => None,
                                    },
                                    None => None,
                                },
                                None => None,
                            },
                            None => None,
                        },
                        None => None,
                    },
                    None => None,
                },
                None => None,
            },
            None => None,
        }
    }

    #[verifier::rlimit(60)]
    pub fn push_pairs(&self, out: &mut Vec<(Vec<u8>, JVal)>)
        requires
            self.wf(),
        ensures
            model_pairs(final(out)@, 0) == model_pairs(old(out)@, 0) + self.jpairs(),
    {
        push_field_u32(out, key_sequence_id(), self.sequence_id as u32);
        {
            let mut sub: Vec<(Vec<u8>, JVal)> = Vec::new();
            self.configuration.push_pairs(&mut sub);
            proof {
                assert(model_pairs(sub@, 0) =~= self.configuration.jpairs());
            }
            push_field_obj(out, key_configuration(), sub);
        }
        {
            let mut sub: Vec<(Vec<u8>, JVal)> = Vec::new();
            self.position.push_pairs(&mut sub);
            proof {
                assert(model_pairs(sub@, 0) =~= self.position.jpairs());
            }
            push_field_obj(out, key_position(), sub);
        }
        {
            let mut sub: Vec<(Vec<u8>, JVal)> = Vec::new();
            self.via_configuration.push_pairs(&mut sub);
            proof {
                assert(model_pairs(sub@, 0) =~= self.via_configuration.jpairs());
            }
            push_field_obj(out, key_via_configuration(), sub);
        }
        {
            let mut sub: Vec<(Vec<u8>, JVal)> = Vec::new();
            self.via_position.push_pairs(&mut sub);
            proof {
                assert(model_pairs(sub@, 0) =~= self.via_position.jpairs());
            }
            push_field_obj(out, key_via_position(), sub);
        }
        {
            let wn = self.speed_type.wire_name_vec();
            push_field_str(out, key_speed_type(), wn.as_slice());
        }
        push_field_u32(out, key_speed(), self.speed as u32);
        {
            let wn = self.term_type.wire_name_vec();
            push_field_str(out, key_term_type(), wn.as_slice());
        }
        push_field_u32(out, key_term_value(), self.term_value as u32);
        proof {
            assert(model_pairs(out@, 0) =~= model_pairs(old(out)@, 0) + self.jpairs());
        }
    }

    pub fn from_pairs(pairs: &Vec<(Vec<u8>, JVal)>) -> (r: Option<FrcCircularRelative>)
        ensures
            r == Self::sdecode(model_pairs(pairs@, 0)),
    {
        let sequence_id = match get_u32(pairs, key_sequence_id().as_slice()) {
            Some(v) => v,
            None => {
                return None;
            },
        };
        let configuration = match get_config(pairs, key_configuration().as_slice()) {
            Some(v) => v,
            None => {
                return None;
            },
        };
        let position = match get_pos(pairs, key_position().as_slice()) {
            Some(v) => v,
            None => {
                return None;
            },
        };
        let via_configuration = match get_config(pairs, key_via_configuration().as_slice()) {
            Some(v) => v,
            None => {
                return None;
            },
        };
        let via_position = match get_pos(pairs, key_via_position().as_slice()) {
            Some(v) => v,
            None => {
                return None;
            },
        };
        let speed_type = match get_speedtype(pairs, key_speed_type().as_slice()) {
            Some(v) => v,
            None => {
                return None;
            },
        };
        let speed = match get_u16(pairs, key_speed().as_slice()) {
            Some(v) => v,
            None => {
                return None;
            },
        };
        let term_type = match get_termtype(pairs, key_term_type().as_slice()) {
            Some(v) => v,
            None => {
                return None;
            },
        };
        let term_value = match get_u8(pairs, key_term_value().as_slice()) {
            Some(v) => v,
            None => {
                return None;
            },
        };
        Some(FrcCircularRelative { sequence_id, configuration, position, via_configuration, via_position, speed_type, speed, term_type, term_value })
    }

    pub proof fn lemma_wf(self)
        requires
            self.wf(),
        ensures
            jpairs_wf(self.jpairs(), 0),
    {
        let m = self.jpairs();
        k_sequence_id_ok();
        k_configuration_ok();
        k_position_ok();
        k_via_configuration_ok();
        k_via_position_ok();
        k_speed_type_ok();
        k_speed_ok();
        k_term_type_ok();
        k_term_value_ok();
        crate::json::lemma_num_u64_round_trip(self.sequence_id as nat);
        self.configuration.lemma_wf();
        self.position.lemma_wf();
        self.via_configuration.lemma_wf();
        self.via_position.lemma_wf();
        SpeedType::lemma_wire_name_ok(self.speed_type);
        crate::json::lemma_num_u64_round_trip(self.speed as nat);
        TermType::lemma_wire_name_ok(self.term_type);
        crate::json::lemma_num_u64_round_trip(self.term_value as nat);
        assert(jval_wf(JValM::Num(jnum_of_nat(self.sequence_id as nat))));
        assert(jval_wf(JValM::Obj(self.configuration.jpairs())));
        assert(jval_wf(JValM::Obj(self.position.jpairs())));
        assert(jval_wf(JValM::Obj(self.via_configuration.jpairs())));
        assert(jval_wf(JValM::Obj(self.via_position.jpairs())));
        assert(jval_wf(JValM::Str(self.speed_type.wire_name())));
        assert(jval_wf(JValM::Num(jnum_of_nat(self.speed as nat))));
        assert(jval_wf(JValM::Str(self.term_type.wire_name())));
        assert(jval_wf(JValM::Num(jnum_of_nat(self.term_value as nat))));
        assert(jpairs_wf(m, 9));
        assert(jpairs_wf(m, 8));
        assert(jpairs_wf(m, 7));
        assert(jpairs_wf(m, 6));
        assert(jpairs_wf(m, 5));
        assert(jpairs_wf(m, 4));
        assert(jpairs_wf(m, 3));
        assert(jpairs_wf(m, 2));
        assert(jpairs_wf(m, 1));
        assert(jpairs_wf(m, 0));
    }

    /// Reading back the pairs this value prints yields it again,
    /// whatever single pair (the discriminant) stands in front.
    pub proof fn lemma_round_trip(self, front: (Seq<u8>, JValM))
        requires
            self.wf(),
            front.0 == k_tag_instruction(),
        ensures
            Self::sdecode(seq![front] + self.jpairs()) == Some(self),
    {
        let m = seq![front] + self.jpairs();
        // field `sequence_id`
        assert(m[1].0 == k_sequence_id());
        assert forall|j: int| 0 <= j < 1 implies m[j].0 != k_sequence_id() by {
            if j == 0 {
                assert(k_tag_instruction().len() != k_sequence_id().len());
            } else {
            }
        }
        lemma_slookup_at(m, k_sequence_id(), 1);
        crate::json::lemma_num_u64_round_trip(self.sequence_id as nat);
        assert(sget_u32(m, k_sequence_id()) == Some(self.sequence_id));
        // field `configuration`
        assert(m[2].0 == k_configuration());
        assert forall|j: int| 0 <= j < 2 implies m[j].0 != k_configuration() by {
            if j == 0 {
                assert(k_tag_instruction().len() != k_configuration().len());
            } else if j == 1 {
                assert(k_sequence_id().len() != k_configuration().len());
            } else {
            }
        }
        lemma_slookup_at(m, k_configuration(), 2);
        self.configuration.lemma_wf();
        self.configuration.lemma_round_trip();
        assert(sget_config(m, k_configuration()) == Some(self.configuration));
        // field `position`
        assert(m[3].0 == k_position());
        assert forall|j: int| 0 <= j < 3 implies m[j].0 != k_position() by {
            if j == 0 {
                assert(k_tag_instruction().len() != k_position().len());
            } else if j == 1 {
                assert(k_sequence_id().len() != k_position().len());
            } else if j == 2 {
                assert(k_configuration().len() != k_position().len());
            } else {
            }
        }
        lemma_slookup_at(m, k_position(), 3);
        self.position.lemma_wf();
        self.position.lemma_round_trip();
        assert(sget_pos(m, k_position()) == Some(self.position));
        // field `via_configuration`
        assert(m[4].0 == k_via_configuration());
        assert forall|j: int| 0 <= j < 4 implies m[j].0 != k_via_configuration() by {
            if j == 0 {
                assert(k_tag_instruction().len() != k_via_configuration().len());
            } else if j == 1 {
                assert(k_sequence_id().len() != k_via_configuration().len());
            } else if j == 2 {
                assert(k_configuration().len() != k_via_configuration().len());
            } else if j == 3 {
                assert(k_position().len() != k_via_configuration().len());
            } else {
            }
        }
        lemma_slookup_at(m, k_via_configuration(), 4);
        self.via_configuration.lemma_wf();
        self.via_configuration.lemma_round_trip();
        assert(sget_config(m, k_via_configuration()) == Some(self.via_configuration));
        // field `via_position`
        assert(m[5].0 == k_via_position());
        assert forall|j: int| 0 <= j < 5 implies m[j].0 != k_via_position() by {
            if j == 0 {
                assert(k_tag_instruction()[0] != k_via_position()[0]);
            } else if j == 1 {
                assert(k_sequence_id().len() != k_via_position().len());
            } else if j == 2 {
                assert(k_configuration().len() != k_via_position().len());
            } else if j == 3 {
                assert(k_position().len() != k_via_position().len());
            } else if j == 4 {
                assert(k_via_configuration().len() != k_via_position().len());
            } else {
            }
        }
        lemma_slookup_at(m, k_via_position(), 5);
        self.via_position.lemma_wf();
        self.via_position.lemma_round_trip();
        assert(sget_pos(m, k_via_position()) == Some(self.via_position));
        // field `speed_type`
        assert(m[6].0 == k_speed_type());
        assert forall|j: int| 0 <= j < 6 implies m[j].0 != k_speed_type() by {
            if j == 0 {
                assert(k_tag_instruction().len() != k_speed_type().len());
            } else if j == 1 {
                assert(k_sequence_id().len() != k_speed_type().len());
            } else if j == 2 {
                assert(k_configuration().len() != k_speed_type().len());
            } else if j == 3 {
                assert(k_position().len() != k_speed_type().len());
            } else if j == 4 {
                assert(k_via_configuration().len() != k_speed_type().len());
            } else if j == 5 {
                assert(k_via_position().len() != k_speed_type().len());
            } else {
            }
        }
        lemma_slookup_at(m, k_speed_type(), 6);
        SpeedType::lemma_wire_name_ok(self.speed_type);
        SpeedType::lemma_from_wire_round_trip(self.speed_type);
        assert(sget_speedtype(m, k_speed_type()) == Some(self.speed_type));
        // field `speed`
        assert(m[7].0 == k_speed());
        assert forall|j: int| 0 <= j < 7 implies m[j].0 != k_speed() by {
            if j == 0 {
                assert(k_tag_instruction().len() != k_speed().len());
            } else if j == 1 {
                assert(k_sequence_id().len() != k_speed().len());
            } else if j == 2 {
                assert(k_configuration().len() != k_speed().len());
            } else if j == 3 {
                assert(k_position().len() != k_speed().len());
            } else if j == 4 {
                assert(k_via_configuration().len() != k_speed().len());
            } else if j == 5 {
                assert(k_via_position().len() != k_speed().len());
            } else if j == 6 {
                assert(k_speed_type().len() != k_speed().len());
            } else {
            }
        }
        lemma_slookup_at(m, k_speed(), 7);
        crate::json::lemma_num_u64_round_trip(self.speed as nat);
        assert(sget_u16(m, k_speed()) == Some(self.speed));
        // field `term_type`
        assert(m[8].0 == k_term_type());
        assert forall|j: int| 0 <= j < 8 implies m[j].0 != k_term_type() by {
            if j == 0 {
                assert(k_tag_instruction().len() != k_term_type().len());
            } else if j == 1 {
                assert(k_sequence_id().len() != k_term_type().len());
            } else if j == 2 {
                assert(k_configuration().len() != k_term_type().len());
            } else if j == 3 {
                assert(k_position()[0] != k_term_type()[0]);
            } else if j == 4 {
                assert(k_via_configuration().len() != k_term_type().len());
            } else if j == 5 {
                assert(k_via_position().len() != k_term_type().len());
            } else if j == 6 {
                assert(k_speed_type().len() != k_term_type().len());
            } else if j == 7 {
                assert(k_speed().len() != k_term_type().len());
            } else {
            }
        }
        lemma_slookup_at(m, k_term_type(), 8);
        TermType::lemma_wire_name_ok(self.term_type);
        TermType::lemma_from_wire_round_trip(self.term_type);
        assert(sget_termtype(m, k_term_type()) == Some(self.term_type));
        // field `term_value`
        assert(m[9].0 == k_term_value());
        assert forall|j: int| 0 <= j < 9 implies m[j].0 != k_term_value() by {
            if j == 0 {
                assert(k_tag_instruction().len() != k_term_value().len());
            } else if j == 1 {
                assert(k_sequence_id().len() != k_term_value().len());
            } else if j == 2 {
                assert(k_configuration().len() != k_term_value().len());
            } else if j == 3 {
                assert(k_position().len() != k_term_value().len());
            } else if j == 4 {
                assert(k_via_configuration().len() != k_term_value().len());
            } else if j == 5 {
                assert(k_via_position().len() != k_term_value().len());
            } else if j == 6 {
                assert(k_speed_type()[0] != k_term_value()[0]);
            } else if j == 7 {
                assert(k_speed().len() != k_term_value().len());
            } else if j == 8 {
                assert(k_term_type().len() != k_term_value().len());
            } else {
            }
        }
        lemma_slookup_at(m, k_term_value(), 9);
        crate::json::lemma_num_u64_round_trip(self.term_value as nat);
        assert(sget_u8(m, k_term_value()) == Some(self.term_value));
        assert(Self::sdecode(m) == Some(self));
    }
    pub fn new(sequenceid: u32, config: Configuration, pos: Position, vconfig: Configuration, vpos: Position, speed_t: SpeedType, speed: u16, term_t: TermType, term_va: u8) -> (r: FrcCircularRelative)
        ensures
            r == (FrcCircularRelative { sequence_id: sequenceid, configuration: config, position: pos, via_configuration: vconfig, via_position: vpos, speed_type: speed_t, speed: speed, term_type: term_t, term_value: term_va }),
    {
        FrcCircularRelative { sequence_id: sequenceid, configuration: config, position: pos, via_configuration: vconfig, via_position: vpos, speed_type: speed_t, speed: speed, term_type: term_t, term_value: term_va }
    }

}

/// Response to a circular relative motion.
#[derive(Debug, Clone, Copy, PartialEq, Eq, Structural)]
pub struct FrcCircularRelativeResponse {
    pub error_id: u32,
    pub sequence_id: u32,
}

impl FrcCircularRelativeResponse {
    /// The wire pairs of this value, in declaration order.
    pub open spec fn jpairs(self) -> Seq<(Seq<u8>, JValM)> {
        seq![
            (k_error_id(), JValM::Num(jnum_of_nat(self.error_id as nat))),
            (k_sequence_id(), JValM::Num(jnum_of_nat(self.sequence_id as nat))),
        ]
    }

    pub open spec fn wf(self) -> bool {
        true
    }

    /// Reads this value out of an object's pairs, by key;
    /// unknown pairs are ignored, a missing or ill-typed field fails.
    pub open spec fn sdecode(m: Seq<(Seq<u8>, JValM)>) -> Option<FrcCircularRelativeResponse> {
        match sget_u32(m, k_error_id()) {
            Some(error_id) => 
            match sget_u32(m, k_sequence_id()) {
                Some(sequence_id) => 
                Some(FrcCircularRelativeResponse { error_id, sequence_id }),
                None => None,
            },
            None => None,
        }
    }

    pub fn push_pairs(&self, out: &mut Vec<(Vec<u8>, JVal)>)
        ensures
            model_pairs(final(out)@, 0) == model_pairs(old(out)@, 0) + self.jpairs(),
    {
        push_field_u32(out, key_error_id(), self.error_id as u32);
        push_field_u32(out, key_sequence_id(), self.sequence_id as u32);
        proof {
            assert(model_pairs(out@, 0) =~= model_pairs(old(out)@, 0) + self.jpairs());
        }
    }

    pub fn from_pairs(pairs: &Vec<(Vec<u8>, JVal)>) -> (r: Option<FrcCircularRelativeResponse>)
        ensures
            r == Self::sdecode(model_pairs(pairs@, 0)),
    {
        let error_id = match get_u32(pairs, key_error_id().as_slice()) {
            Some(v) => v,
            None => {
                return None;
            },
        };
        let sequence_id = match get_u32(pairs, key_sequence_id().as_slice()) {
            Some(v) => v,
            None => {
                return None;
            },
        };
        Some(FrcCircularRelativeResponse { error_id, sequence_id })
    }

    pub proof fn lemma_wf(self)
        ensures
            jpairs_wf(self.jpairs(), 0),
    {
        let m = self.jpairs();
        k_error_id_ok();
        k_sequence_id_ok();
        crate::json::lemma_num_u64_round_trip(self.error_id as nat);
        crate::json::lemma_num_u64_round_trip(self.sequence_id as nat);
        assert(jval_wf(JValM::Num(jnum_of_nat(self.error_id as nat))));
        assert(jval_wf(JValM::Num(jnum_of_nat(self.sequence_id as nat))));
        assert(jpairs_wf(m, 2));
        assert(jpairs_wf(m, 1));
        assert(jpairs_wf(m, 0));
    }

    /// Reading back the pairs this value prints yields it again,
    /// whatever single pair (the discriminant) stands in front.
    pub proof fn lemma_round_trip(self, front: (Seq<u8>, JValM))
        requires
            front.0 == k_tag_instruction(),
        ensures
            Self::sdecode(seq![front] + self.jpairs()) == Some(self),
    {
        let m = seq![front] + self.jpairs();
        // field `error_id`
        assert(m[1].0 == k_error_id());
        assert forall|j: int| 0 <= j < 1 implies m[j].0 != k_error_id() by {
            if j == 0 {
                assert(k_tag_instruction().len() != k_error_id().len());
            } else {
            }
        }
        lemma_slookup_at(m, k_error_id(), 1);
        crate::json::lemma_num_u64_round_trip(self.error_id as nat);
        assert(sget_u32(m, k_error_id()) == Some(self.error_id));
        // field `sequence_id`
        assert(m[2].0 == k_sequence_id());
        assert forall|j: int| 0 <= j < 2 implies m[j].0 != k_sequence_id() by {
            if j == 0 {
                assert(k_tag_instruction().len() != k_sequence_id().len());
            } else if j == 1 {
                assert(k_error_id().len() != k_sequence_id().len());
            } else {
            }
        }
        lemma_slookup_at(m, k_sequence_id(), 2);
        crate::json::lemma_num_u64_round_trip(self.sequence_id as nat);
        assert(sget_u32(m, k_sequence_id()) == Some(self.sequence_id));
        assert(Self::sdecode(m) == Some(self));
    }

}

/// Joint motion given in joint representation.
#[derive(Debug, Clone, Copy, PartialEq, Eq, Structural)]
pub struct FrcJointMotionJRep {
    pub sequence_id: u32,
    pub joint_angles: JointAngles,
    pub speed_type: SpeedType,
    pub speed: u16,
    pub term_type: TermType,
    pub term_value: u8,
}

impl FrcJointMotionJRep {
    /// The wire pairs of this value, in declaration order.
    pub open spec fn jpairs(self) -> Seq<(Seq<u8>, JValM)> {
        seq![
            (k_sequence_id(), JValM::Num(jnum_of_nat(self.sequence_id as nat))),
            (k_joint_angles(), JValM::Obj(self.joint_angles.jpairs())),
            (k_speed_type(), JValM::Str(self.speed_type.wire_name())),
            (k_speed(), JValM::Num(jnum_of_nat(self.speed as nat))),
            (k_term_type(), JValM::Str(self.term_type.wire_name())),
            (k_term_value(), JValM::Num(jnum_of_nat(self.term_value as nat))),
        ]
    }

    pub open spec fn wf(self) -> bool {
        self.joint_angles.wf()
    }

    /// Reads this value out of an object's pairs, by key;
    /// unknown pairs are ignored, a missing or ill-typed field fails.
    pub open spec fn sdecode(m: Seq<(Seq<u8>, JValM)>) -> Option<FrcJointMotionJRep> {
        match sget_u32(m, k_sequence_id()) {
            Some(sequence_id) => 
            match sget_joints(m, k_joint_angles()) {
                Some(joint_angles) => 
                match sget_speedtype(m, k_speed_type()) {
                    Some(speed_type) => 
                    match sget_u16(m, k_speed()) {
                        Some(speed) => 
                        match sget_termtype(m, k_term_type()) {
                            Some(term_type) => 
                            match sget_u8(m, k_term_value()) {
                                Some(term_value) => 
                                Some(FrcJointMotionJRep { sequence_id, joint_angles, speed_type, speed, term_type, term_value }),
                                None => None,
                            },
                            None => None,
                        },
                        None => None,
                    },
                    None => None,
                },
                None => None,
            },
            None => None,
        }
    }

    pub fn push_pairs(&self, out: &mut Vec<(Vec<u8>, JVal)>)
        requires
            self.wf(),
        ensures
            model_pairs(final(out)@, 0) == model_pairs(old(out)@, 0) + self.jpairs(),
    {
        push_field_u32(out, key_sequence_id(), self.sequence_id as u32);
        {
            let mut sub: Vec<(Vec<u8>, JVal)> = Vec::new();
            self.joint_angles.push_pairs(&mut sub);
            proof {
                assert(model_pairs(sub@, 0) =~= self.joint_angles.jpairs());
            }
            push_field_obj(out, key_joint_angles(), sub);
        }
        {
            let wn = self.speed_type.wire_name_vec();
            push_field_str(out, key_speed_type(), wn.as_slice());
        }
        push_field_u32(out, key_speed(), self.speed as u32);
        {
            let wn = self.term_type.wire_name_vec();
            push_field_str(out, key_term_type(), wn.as_slice());
        }
        push_field_u32(out, key_term_value(), self.term_value as u32);
        proof {
            assert(model_pairs(out@, 0) =~= model_pairs(old(out)@, 0) + self.jpairs());
        }
    }

    pub fn from_pairs(pairs: &Vec<(Vec<u8>, JVal)>) -> (r: Option<FrcJointMotionJRep>)
        ensures
            r == Self::sdecode(model_pairs(pairs@, 0)),
    {
        let sequence_id = match get_u32(pairs, key_sequence_id().as_slice()) {
            Some(v) => v,
            None => {
                return None;
            },
        };
        let joint_angles = match get_joints(pairs, key_joint_angles().as_slice()) {
            Some(v) => v,
            None => {
                return None;
            },
        };
        let speed_type = match get_speedtype(pairs, key_speed_type().as_slice()) {
            Some(v) => v,
            None => {
                return None;
            },
        };
        let speed = match get_u16(pairs, key_speed().as_slice()) {
            Some(v) => v,
            None => {
                return None;
            },
        };
        let term_type = match get_termtype(pairs, key_term_type().as_slice()) {
            Some(v) => v,
            None => {
                return None;
            },
        };
        let term_value = match get_u8(pairs, key_term_value().as_slice()) {
            Some(v) => v,
            None => {
                return None;
            },
        };
        Some(FrcJointMotionJRep { sequence_id, joint_angles, speed_type, speed, term_type, term_value })
    }

    pub proof fn lemma_wf(self)
        requires
            self.wf(),
        ensures
            jpairs_wf(self.jpairs(), 0),
    {
        let m = self.jpairs();
        k_sequence_id_ok();
        k_joint_angles_ok();
        k_speed_type_ok();
        k_speed_ok();
        k_term_type_ok();
        k_term_value_ok();
        crate::json::lemma_num_u64_round_trip(self.sequence_id as nat);
        self.joint_angles.lemma_wf();
        SpeedType::lemma_wire_name_ok(self.speed_type);
        crate::json::lemma_num_u64_round_trip(self.speed as nat);
        TermType::lemma_wire_name_ok(self.term_type);
        crate::json::lemma_num_u64_round_trip(self.term_value as nat);
        assert(jval_wf(JValM::Num(jnum_of_nat(self.sequence_id as nat))));
        assert(jval_wf(JValM::Obj(self.joint_angles.jpairs())));
        assert(jval_wf(JValM::Str(self.speed_type.wire_name())));
        assert(jval_wf(JValM::Num(jnum_of_nat(self.speed as nat))));
        assert(jval_wf(JValM::Str(self.term_type.wire_name())));
        assert(jval_wf(JValM::Num(jnum_of_nat(self.term_value as nat))));
        assert(jpairs_wf(m, 6));
        assert(jpairs_wf(m, 5));
        assert(jpairs_wf(m, 4));
        assert(jpairs_wf(m, 3));
        assert(jpairs_wf(m, 2));
        assert(jpairs_wf(m, 1));
        assert(jpairs_wf(m, 0));
    }

    /// Reading back the pairs this value prints yields it again,
    /// whatever single pair (the discriminant) stands in front.
    pub proof fn lemma_round_trip(self, front: (Seq<u8>, JValM))
        requires
            self.wf(),
            front.0 == k_tag_instruction(),
        ensures
            Self::sdecode(seq![front] + self.jpairs()) == Some(self),
    {
        let m = seq![front] + self.jpairs();
        // field `sequence_id`
        assert(m[1].0 == k_sequence_id());
        assert forall|j: int| 0 <= j < 1 implies m[j].0 != k_sequence_id() by {
            if j == 0 {
                assert(k_tag_instruction().len() != k_sequence_id().len());
            } else {
            }
        }
        lemma_slookup_at(m, k_sequence_id(), 1);
        crate::json::lemma_num_u64_round_trip(self.sequence_id as nat);
        assert(sget_u32(m, k_sequence_id()) == Some(self.sequence_id));
        // field `joint_angles`
        assert(m[2].0 == k_joint_angles());
        assert forall|j: int| 0 <= j < 2 implies m[j].0 != k_joint_angles() by {
            if j == 0 {
                assert(k_tag_instruction()[0] != k_joint_angles()[0]);
            } else if j == 1 {
                assert(k_sequence_id().len() != k_joint_angles().len());
            } else {
            }
        }
        lemma_slookup_at(m, k_joint_angles(), 2);
        self.joint_angles.lemma_wf();
        self.joint_angles.lemma_round_trip();
        assert(sget_joints(m, k_joint_angles()) == Some(self.joint_angles));
        // field `speed_type`
        assert(m[3].0 == k_speed_type());
        assert forall|j: int| 0 <= j < 3 implies m[j].0 != k_speed_type() by {
            if j == 0 {
                assert(k_tag_instruction().len() != k_speed_type().len());
            } else if j == 1 {
                assert(k_sequence_id().len() != k_speed_type().len());
            } else if j == 2 {
                assert(k_joint_angles().len() != k_speed_type().len());
            } else {
            }
        }
        lemma_slookup_at(m, k_speed_type(), 3);
        SpeedType::lemma_wire_name_ok(self.speed_type);
        SpeedType::lemma_from_wire_round_trip(self.speed_type);
        assert(sget_speedtype(m, k_speed_type()) == Some(self.speed_type));
        // field `speed`
        assert(m[4].0 == k_speed());
        assert forall|j: int| 0 <= j < 4 implies m[j].0 != k_speed() by {
            if j == 0 {
                assert(k_tag_instruction().len() != k_speed().len());
            } else if j == 1 {
                assert(k_sequence_id().len() != k_speed().len());
            } else if j == 2 {
                assert(k_joint_angles().len() != k_speed().len());
            } else if j == 3 {
                assert(k_speed_type().len() != k_speed().len());
            } else {
            }
        }
        lemma_slookup_at(m, k_speed(), 4);
        crate::json::lemma_num_u64_round_trip(self.speed as nat);
        assert(sget_u16(m, k_speed()) == Some(self.speed));
        // field `term_type`
        assert(m[5].0 == k_term_type());
        assert forall|j: int| 0 <= j < 5 implies m[j].0 != k_term_type() by {
            if j == 0 {
                assert(k_tag_instruction().len() != k_term_type().len());
            } else if j == 1 {
                assert(k_sequence_id().len() != k_term_type().len());
            } else if j == 2 {
                assert(k_joint_angles().len() != k_term_type().len());
            } else if j == 3 {
                assert(k_speed_type().len() != k_term_type().len());
            } else if j == 4 {
                assert(k_speed().len() != k_term_type().len());
            } else {
            }
        }
        lemma_slookup_at(m, k_term_type(), 5);
        TermType::lemma_wire_name_ok(self.term_type);
        TermType::lemma_from_wire_round_trip(self.term_type);
        assert(sget_termtype(m, k_term_type()) == Some(self.term_type));
        // field `term_value`
        assert(m[6].0 == k_term_value());
        assert forall|j: int| 0 <= j < 6 implies m[j].0 != k_term_value() by {
            if j == 0 {
                assert(k_tag_instruction().len() != k_term_value().len());
            } else if j == 1 {
                assert(k_sequence_id().len() != k_term_value().len());
            } else if j == 2 {
                assert(k_joint_angles().len() != k_term_value().len());
            } else if j == 3 {
                assert(k_speed_type()[0] != k_term_value()[0]);
            } else if j == 4 {
                assert(k_speed().len() != k_term_value().len());
            } else if j == 5 {
                assert(k_term_type().len() != k_term_value().len());
            } else {
            }
        }
        lemma_slookup_at(m, k_term_value(), 6);
        crate::json::lemma_num_u64_round_trip(self.term_value as nat);
        assert(sget_u8(m, k_term_value()) == Some(self.term_value));
        assert(Self::sdecode(m) == Some(self));
    }
    pub fn new(sequenceid: u32, joints: JointAngles, speed_t: SpeedType, speed: u16, term_t: TermType, term_va: u8) -> (r: FrcJointMotionJRep)
        ensures
            r == (FrcJointMotionJRep { sequence_id: sequenceid, joint_angles: joints, speed_type: speed_t, speed: speed, term_type: term_t, term_value: term_va }),
    {
        FrcJointMotionJRep { sequence_id: sequenceid, joint_angles: joints, speed_type: speed_t, speed: speed, term_type: term_t, term_value: term_va }
    }

}

/// Response to a joint motion in joint representation.
#[derive(Debug, Clone, Copy, PartialEq, Eq, Structural)]
pub struct FrcJointMotionJRepResponse {
    pub error_id: u32,
    pub sequence_id: u32,
}

impl FrcJointMotionJRepResponse {
    /// The wire pairs of this value, in declaration order.
    pub open spec fn jpairs(self) -> Seq<(Seq<u8>, JValM)> {
        seq![
            (k_error_id(), JValM::Num(jnum_of_nat(self.error_id as nat))),
            (k_sequence_id(), JValM::Num(jnum_of_nat(self.sequence_id as nat))),
        ]
    }

    pub open spec fn wf(self) -> bool {
        true
    }

    /// Reads this value out of an object's pairs, by key;
    /// unknown pairs are ignored, a missing or ill-typed field fails.
    pub open spec fn sdecode(m: Seq<(Seq<u8>, JValM)>) -> Option<FrcJointMotionJRepResponse> {
        match sget_u32(m, k_error_id()) {
            Some(error_id) => 
            match sget_u32(m, k_sequence_id()) {
                Some(sequence_id) => 
                Some(FrcJointMotionJRepResponse { error_id, sequence_id }),
                None => None,
            },
            None => None,
        }
    }

    pub fn push_pairs(&self, out: &mut Vec<(Vec<u8>, JVal)>)
        ensures
            model_pairs(final(out)@, 0) == model_pairs(old(out)@, 0) + self.jpairs(),
    {
        push_field_u32(out, key_error_id(), self.error_id as u32);
        push_field_u32(out, key_sequence_id(), self.sequence_id as u32);
        proof {
            assert(model_pairs(out@, 0) =~= model_pairs(old(out)@, 0) + self.jpairs());
        }
    }

    pub fn from_pairs(pairs: &Vec<(Vec<u8>, JVal)>) -> (r: Option<FrcJointMotionJRepResponse>)
        ensures
            r == Self::sdecode(model_pairs(pairs@, 0)),
    {
        let error_id = match get_u32(pairs, key_error_id().as_slice()) {
            Some(v) => v,
            None => {
                return None;
            },
        };
        let sequence_id = match get_u32(pairs, key_sequence_id().as_slice()) {
            Some(v) => v,
            None => {
                return None;
            },
        };
        Some(FrcJointMotionJRepResponse { error_id, sequence_id })
    }

    pub proof fn lemma_wf(self)
        ensures
            jpairs_wf(self.jpairs(), 0),
    {
        let m = self.jpairs();
        k_error_id_ok();
        k_sequence_id_ok();
        crate::json::lemma_num_u64_round_trip(self.error_id as nat);
        crate::json::lemma_num_u64_round_trip(self.sequence_id as nat);
        assert(jval_wf(JValM::Num(jnum_of_nat(self.error_id as nat))));
        assert(jval_wf(JValM::Num(jnum_of_nat(self.sequence_id as nat))));
        assert(jpairs_wf(m, 2));
        assert(jpairs_wf(m, 1));
        assert(jpairs_wf(m, 0));
    }

    /// Reading back the pairs this value prints yields it again,
    /// whatever single pair (the discriminant) stands in front.
    pub proof fn lemma_round_trip(self, front: (Seq<u8>, JValM))
        requires
            front.0 == k_tag_instruction(),
        ensures
            Self::sdecode(seq![front] + self.jpairs()) == Some(self),
    {
        let m = seq![front] + self.jpairs();
        // field `error_id`
        assert(m[1].0 == k_error_id());
        assert forall|j: int| 0 <= j < 1 implies m[j].0 != k_error_id() by {
            if j == 0 {
                assert(k_tag_instruction().len() != k_error_id().len());
            } else {
            }
        }
        lemma_slookup_at(m, k_error_id(), 1);
        crate::json::lemma_num_u64_round_trip(self.error_id as nat);
        assert(sget_u32(m, k_error_id()) == Some(self.error_id));
        // field `sequence_id`
        assert(m[2].0 == k_sequence_id());
        assert forall|j: int| 0 <= j < 2 implies m[j].0 != k_sequence_id() by {
            if j == 0 {
                assert(k_tag_instruction().len() != k_sequence_id().len());
            } else if j == 1 {
                assert(k_error_id().len() != k_sequence_id().len());
            } else {
            }
        }
        lemma_slookup_at(m, k_sequence_id(), 2);
        crate::json::lemma_num_u64_round_trip(self.sequence_id as nat);
        assert(sget_u32(m, k_sequence_id()) == Some(self.sequence_id));
        assert(Self::sdecode(m) == Some(self));
    }

}

} // verus!
