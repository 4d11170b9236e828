//! Command packets: single-shot controller operations and their
//! responses, correlated by strict send-then-receive order.

use vstd::prelude::*;
use crate::json::{
    model_pairs, jnum_of_nat, jnum_of_int, jnum_of_dec, JVal, JValM, sget_u8, sget_u16,
    sget_u32, sget_i8, sget_i16, sget_i32, sget_dec, sget_str, get_u8, get_u16, get_u32,
    get_i8, get_i16, get_i32, get_dec, get_str, jpairs_wf, jval_wf, str_ok, lemma_slookup_at,
};
use crate::keys::{
    k_configuration,
    k_configuration_ok,
    k_count,
    k_count_ok,
    k_error_data,
    k_error_data_ok,
    k_error_id,
    k_error_id_ok,
    k_frame,
    k_frame_number,
    k_frame_number_ok,
    k_frame_ok,
    k_group,
    k_group_mask,
    k_group_mask_ok,
    k_group_ok,
    k_joint_angles,
    k_joint_angles_ok,
    k_number_uframe,
    k_number_uframe_ok,
    k_number_utool,
    k_number_utool_ok,
    k_port_number,
    k_port_number_ok,
    k_port_value,
    k_port_value_ok,
    k_position,
    k_position_ok,
    k_program_status,
    k_program_status_ok,
    k_register_number,
    k_register_number_ok,
    k_rmi_motion_status,
    k_rmi_motion_status_ok,
    k_servo_ready,
    k_servo_ready_ok,
    k_single_step_mode,
    k_single_step_mode_ok,
    k_speed,
    k_speed_ok,
    k_tag_command,
    k_time_tag,
    k_time_tag_ok,
    k_tool_number,
    k_tool_number_ok,
    k_tp_mode,
    k_tp_mode_ok,
    k_uframe_number,
    k_uframe_number_ok,
    k_utool_number,
    k_utool_number_ok,
    k_value,
    k_value_ok,
    key_configuration,
    key_count,
    key_error_data,
    key_error_id,
    key_frame,
    key_frame_number,
    key_group,
    key_group_mask,
    key_joint_angles,
    key_number_uframe,
    key_number_utool,
    key_port_number,
    key_port_value,
    key_position,
    key_program_status,
    key_register_number,
    key_rmi_motion_status,
    key_servo_ready,
    key_single_step_mode,
    key_speed,
    key_time_tag,
    key_tool_number,
    key_tp_mode,
    key_uframe_number,
    key_utool_number,
    key_value,
};
use crate::wire::{
    push_field_u32, push_field_i32, push_field_dec, push_field_str, push_field_obj,
    sget_config, sget_pos, sget_joints, sget_framedata, get_config, get_pos, get_joints,
    get_framedata, opt_or_one,
};
use crate::num::Dec;
use crate::{Configuration, Position, JointAngles, FrameData};

verus! {


/// Initialize the controller for remote motion, over a group mask.
#[derive(Debug, Clone, Copy, PartialEq, Eq, Structural)]
pub struct FrcInitialize {
    pub group_mask: u8,
}

impl FrcInitialize {
    /// The wire pairs of this value, in declaration order.
    pub open spec fn jpairs(self) -> Seq<(Seq<u8>, JValM)> {
        seq![
            (k_group_mask(), JValM::Num(jnum_of_nat(self.group_mask as nat))),
        ]
    }

    pub open spec fn wf(self) -> bool {
        true
    }

    /// Reads this value out of an object's pairs, by key;
    /// unknown pairs are ignored, a missing or ill-typed field fails.
    pub open spec fn sdecode(m: Seq<(Seq<u8>, JValM)>) -> Option<FrcInitialize> {
        match sget_u8(m, k_group_mask()) {
            Some(group_mask) => 
            Some(FrcInitialize { group_mask }),
            None => None,
        }
    }

    pub fn push_pairs(&self, out: &mut Vec<(Vec<u8>, JVal)>)
        ensures
            model_pairs(final(out)@, 0) == model_pairs(old(out)@, 0) + self.jpairs(),
    {
        push_field_u32(out, key_group_mask(), self.group_mask as u32);
        proof {
            assert(model_pairs(out@, 0) =~= model_pairs(old(out)@, 0) + self.jpairs());
        }
    }

    pub fn from_pairs(pairs: &Vec<(Vec<u8>, JVal)>) -> (r: Option<FrcInitialize>)
        ensures
            r == Self::sdecode(model_pairs(pairs@, 0)),
    {
        let group_mask = match get_u8(pairs, key_group_mask().as_slice()) {
            Some(v) => v,
            None => {
                return None;
            },
        };
        Some(FrcInitialize { group_mask })
    }

    pub proof fn lemma_wf(self)
        ensures
            jpairs_wf(self.jpairs(), 0),
    {
        let m = self.jpairs();
        k_group_mask_ok();
        crate::json::lemma_num_u64_round_trip(self.group_mask as nat);
        assert(jval_wf(JValM::Num(jnum_of_nat(self.group_mask as nat))));
        assert(jpairs_wf(m, 1));
        assert(jpairs_wf(m, 0));
    }

    /// Reading back the pairs this value prints yields it again,
    /// whatever single pair (the discriminant) stands in front.
    pub proof fn lemma_round_trip(self, front: (Seq<u8>, JValM))
        requires
            front.0 == k_tag_command(),
        ensures
            Self::sdecode(seq![front] + self.jpairs()) == Some(self),
    {
        let m = seq![front] + self.jpairs();
        // field `group_mask`
        assert(m[1].0 == k_group_mask());
        assert forall|j: int| 0 <= j < 1 implies m[j].0 != k_group_mask() by {
            if j == 0 {
                assert(k_tag_command().len() != k_group_mask().len());
            } else {
            }
        }
        lemma_slookup_at(m, k_group_mask(), 1);
        crate::json::lemma_num_u64_round_trip(self.group_mask as nat);
        assert(sget_u8(m, k_group_mask()) == Some(self.group_mask));
        assert(Self::sdecode(m) == Some(self));
    }
    pub fn new(groupmask: Option<u8>) -> (r: FrcInitialize)
        ensures
            r == (FrcInitialize { group_mask: opt_or_one(groupmask) }),
    {
        FrcInitialize { group_mask: match groupmask { Some(g) => g, None => 1 } }
    }

}

impl Default for FrcInitialize {
    fn default() -> (r: FrcInitialize)
        ensures
            r == (FrcInitialize { group_mask: 1u8 }),
    {
        FrcInitialize { group_mask: 1u8 }
    }
}


/// Response to an initialize command.
#[derive(Debug, Clone, Copy, PartialEq, Eq, Structural)]
pub struct FrcInitializeResponse {
    pub error_id: u32,
    pub group_mask: u16,
}

impl FrcInitializeResponse {
    /// The wire pairs of this value, in declaration order.
    pub open spec fn jpairs(self) -> Seq<(Seq<u8>, JValM)> {
        seq![
            (k_error_id(), JValM::Num(jnum_of_nat(self.error_id as nat))),
            (k_group_mask(), JValM::Num(jnum_of_nat(self.group_mask as nat))),
        ]
    }

    pub open spec fn wf(self) -> bool {
        true
    }

    /// Reads this value out of an object's pairs, by key;
    /// unknown pairs are ignored, a missing or ill-typed field fails.
    pub open spec fn sdecode(m: Seq<(Seq<u8>, JValM)>) -> Option<FrcInitializeResponse> {
        match sget_u32(m, k_error_id()) {
            Some(error_id) => 
            match sget_u16(m, k_group_mask()) {
                Some(group_mask) => 
                Some(FrcInitializeResponse { error_id, group_mask }),
                None => None,
            },
            None => None,
        }
    }

    pub fn push_pairs(&self, out: &mut Vec<(Vec<u8>, JVal)>)
        ensures
            model_pairs(final(out)@, 0) == model_pairs(old(out)@, 0) + self.jpairs(),
    {
        push_field_u32(out, key_error_id(), self.error_id as u32);
        push_field_u32(out, key_group_mask(), self.group_mask as u32);
        proof {
            assert(model_pairs(out@, 0) =~= model_pairs(old(out)@, 0) + self.jpairs());
        }
    }

    pub fn from_pairs(pairs: &Vec<(Vec<u8>, JVal)>) -> (r: Option<FrcInitializeResponse>)
        ensures
            r == Self::sdecode(model_pairs(pairs@, 0)),
    {
        let error_id = match get_u32(pairs, key_error_id().as_slice()) {
            Some(v) => v,
            None => {
                return None;
            },
        };
        let group_mask = match get_u16(pairs, key_group_mask().as_slice()) {
            Some(v) => v,
            None => {
                return None;
            },
        };
        Some(FrcInitializeResponse { error_id, group_mask })
    }

    pub proof fn lemma_wf(self)
        ensures
            jpairs_wf(self.jpairs(), 0),
    {
        let m = self.jpairs();
        k_error_id_ok();
        k_group_mask_ok();
        crate::json::lemma_num_u64_round_trip(self.error_id as nat);
        crate::json::lemma_num_u64_round_trip(self.group_mask as nat);
        assert(jval_wf(JValM::Num(jnum_of_nat(self.error_id as nat))));
        assert(jval_wf(JValM::Num(jnum_of_nat(self.group_mask as nat))));
        assert(jpairs_wf(m, 2));
        assert(jpairs_wf(m, 1));
        assert(jpairs_wf(m, 0));
    }

    /// Reading back the pairs this value prints yields it again,
    /// whatever single pair (the discriminant) stands in front.
    pub proof fn lemma_round_trip(self, front: (Seq<u8>, JValM))
        requires
            front.0 == k_tag_command(),
        ensures
            Self::sdecode(seq![front] + self.jpairs()) == Some(self),
    {
        let m = seq![front] + self.jpairs();
        // field `error_id`
        assert(m[1].0 == k_error_id());
        assert forall|j: int| 0 <= j < 1 implies m[j].0 != k_error_id() by {
            if j == 0 {
                assert(k_tag_command()[0] != k_error_id()[0]);
            } else {
            }
        }
        lemma_slookup_at(m, k_error_id(), 1);
        crate::json::lemma_num_u64_round_trip(self.error_id as nat);
        assert(sget_u32(m, k_error_id()) == Some(self.error_id));
        // field `group_mask`
        assert(m[2].0 == k_group_mask());
        assert forall|j: int| 0 <= j < 2 implies m[j].0 != k_group_mask() by {
            if j == 0 {
                assert(k_tag_command().len() != k_group_mask().len());
            } else if j == 1 {
                assert(k_error_id().len() != k_group_mask().len());
            } else {
            }
        }
        lemma_slookup_at(m, k_group_mask(), 2);
        crate::json::lemma_num_u64_round_trip(self.group_mask as nat);
        assert(sget_u16(m, k_group_mask()) == Some(self.group_mask));
        assert(Self::sdecode(m) == Some(self));
    }

}

/// Response to an abort command.
#[derive(Debug, Clone, Copy, PartialEq, Eq, Structural)]
pub struct FrcAbortResponse {
    pub error_id: u32,
}

impl FrcAbortResponse {
    /// The wire pairs of this value, in declaration order.
    pub open spec fn jpairs(self) -> Seq<(Seq<u8>, JValM)> {
        seq![
            (k_error_id(), JValM::Num(jnum_of_nat(self.error_id as nat))),
        ]
    }

    pub open spec fn wf(self) -> bool {
        true
    }

    /// Reads this value out of an object's pairs, by key;
    /// unknown pairs are ignored, a missing or ill-typed field fails.
    pub open spec fn sdecode(m: Seq<(Seq<u8>, JValM)>) -> Option<FrcAbortResponse> {
        match sget_u32(m, k_error_id()) {
            Some(error_id) => 
            Some(FrcAbortResponse { error_id }),
            None => None,
        }
    }

    pub fn push_pairs(&self, out: &mut Vec<(Vec<u8>, JVal)>)
        ensures
            model_pairs(final(out)@, 0) == model_pairs(old(out)@, 0) + self.jpairs(),
    {
        push_field_u32(out, key_error_id(), self.error_id as u32);
        proof {
            assert(model_pairs(out@, 0) =~= model_pairs(old(out)@, 0) + self.jpairs());
        }
    }

    pub fn from_pairs(pairs: &Vec<(Vec<u8>, JVal)>) -> (r: Option<FrcAbortResponse>)
        ensures
            r == Self::sdecode(model_pairs(pairs@, 0)),
    {
        let error_id = match get_u32(pairs, key_error_id().as_slice()) {
            Some(v) => v,
            None => {
                return None;
            },
        };
        Some(FrcAbortResponse { error_id })
    }

    pub proof fn lemma_wf(self)
        ensures
            jpairs_wf(self.jpairs(), 0),
    {
        let m = self.jpairs();
        k_error_id_ok();
        crate::json::lemma_num_u64_round_trip(self.error_id as nat);
        assert(jval_wf(JValM::Num(jnum_of_nat(self.error_id as nat))));
        assert(jpairs_wf(m, 1));
        assert(jpairs_wf(m, 0));
    }

    /// Reading back the pairs this value prints yields it again,
    /// whatever single pair (the discriminant) stands in front.
    pub proof fn lemma_round_trip(self, front: (Seq<u8>, JValM))
        requires
            front.0 == k_tag_command(),
        ensures
            Self::sdecode(seq![front] + self.jpairs()) == Some(self),
    {
        let m = seq![front] + self.jpairs();
        // field `error_id`
        assert(m[1].0 == k_error_id());
        assert forall|j: int| 0 <= j < 1 implies m[j].0 != k_error_id() by {
            if j == 0 {
                assert(k_tag_command()[0] != k_error_id()[0]);
            } else {
            }
        }
        lemma_slookup_at(m, k_error_id(), 1);
        crate::json::lemma_num_u64_round_trip(self.error_id as nat);
        assert(sget_u32(m, k_error_id()) == Some(self.error_id));
        assert(Self::sdecode(m) == Some(self));
    }

}

/// Response to a pause command.
#[derive(Debug, Clone, Copy, PartialEq, Eq, Structural)]
pub struct FrcPauseResponse {
    pub error_id: u32,
}

impl FrcPauseResponse {
    /// The wire pairs of this value, in declaration order.
    pub open spec fn jpairs(self) -> Seq<(Seq<u8>, JValM)> {
        seq![
            (k_error_id(), JValM::Num(jnum_of_nat(self.error_id as nat))),
        ]
    }

    pub open spec fn wf(self) -> bool {
        true
    }

    /// Reads this value out of an object's pairs, by key;
    /// unknown pairs are ignored, a missing or ill-typed field fails.
    pub open spec fn sdecode(m: Seq<(Seq<u8>, JValM)>) -> Option<FrcPauseResponse> {
        match sget_u32(m, k_error_id()) {
            Some(error_id) => 
            Some(FrcPauseResponse { error_id }),
            None => None,
        }
    }

    pub fn push_pairs(&self, out: &mut Vec<(Vec<u8>, JVal)>)
        ensures
            model_pairs(final(out)@, 0) == model_pairs(old(out)@, 0) + self.jpairs(),
    {
        push_field_u32(out, key_error_id(), self.error_id as u32);
        proof {
            assert(model_pairs(out@, 0) =~= model_pairs(old(out)@, 0) + self.jpairs());
        }
    }

    pub fn from_pairs(pairs: &Vec<(Vec<u8>, JVal)>) -> (r: Option<FrcPauseResponse>)
        ensures
            r == Self::sdecode(model_pairs(pairs@, 0)),
    {
        let error_id = match get_u32(pairs, key_error_id().as_slice()) {
            Some(v) => v,
            None => {
                return None;
            },
        };
        Some(FrcPauseResponse { error_id })
    }

    pub proof fn lemma_wf(self)
        ensures
            jpairs_wf(self.jpairs(), 0),
    {
        let m = self.jpairs();
        k_error_id_ok();
        crate::json::lemma_num_u64_round_trip(self.error_id as nat);
        assert(jval_wf(JValM::Num(jnum_of_nat(self.error_id as nat))));
        assert(jpairs_wf(m, 1));
        assert(jpairs_wf(m, 0));
    }

    /// Reading back the pairs this value prints yields it again,
    /// whatever single pair (the discriminant) stands in front.
    pub proof fn lemma_round_trip(self, front: (Seq<u8>, JValM))
        requires
            front.0 == k_tag_command(),
        ensures
            Self::sdecode(seq![front] + self.jpairs()) == Some(self),
    {
        let m = seq![front] + self.jpairs();
        // field `error_id`
        assert(m[1].0 == k_error_id());
        assert forall|j: int| 0 <= j < 1 implies m[j].0 != k_error_id() by {
            if j == 0 {
                assert(k_tag_command()[0] != k_error_id()[0]);
            } else {
            }
        }
        lemma_slookup_at(m, k_error_id(), 1);
        crate::json::lemma_num_u64_round_trip(self.error_id as nat);
        assert(sget_u32(m, k_error_id()) == Some(self.error_id));
        assert(Self::sdecode(m) == Some(self));
    }

}

/// Response to a continue command.
#[derive(Debug, Clone, Copy, PartialEq, Eq, Structural)]
pub struct FrcContinueResponse {
    pub error_id: u32,
}

impl FrcContinueResponse {
    /// The wire pairs of this value, in declaration order.
    pub open spec fn jpairs(self) -> Seq<(Seq<u8>, JValM)> {
        seq![
            (k_error_id(), JValM::Num(jnum_of_nat(self.error_id as nat))),
        ]
    }

    pub open spec fn wf(self) -> bool {
        true
    }

    /// Reads this value out of an object's pairs, by key;
    /// unknown pairs are ignored, a missing or ill-typed field fails.
    pub open spec fn sdecode(m: Seq<(Seq<u8>, JValM)>) -> Option<FrcContinueResponse> {
        match sget_u32(m, k_error_id()) {
            Some(error_id) => 
            Some(FrcContinueResponse { error_id }),
            None => None,
        }
    }

    pub fn push_pairs(&self, out: &mut Vec<(Vec<u8>, JVal)>)
        ensures
            model_pairs(final(out)@, 0) == model_pairs(old(out)@, 0) + self.jpairs(),
    {
        push_field_u32(out, key_error_id(), self.error_id as u32);
        proof {
            assert(model_pairs(out@, 0) =~= model_pairs(old(out)@, 0) + self.jpairs());
        }
    }

    pub fn from_pairs(pairs: &Vec<(Vec<u8>, JVal)>) -> (r: Option<FrcContinueResponse>)
        ensures
            r == Self::sdecode(model_pairs(pairs@, 0)),
    {
        let error_id = match get_u32(pairs, key_error_id().as_slice()) {
            Some(v) => v,
            None => {
                return None;
            },
        };
        Some(FrcContinueResponse { error_id })
    }

    pub proof fn lemma_wf(self)
        ensures
            jpairs_wf(self.jpairs(), 0),
    {
        let m = self.jpairs();
        k_error_id_ok();
        crate::json::lemma_num_u64_round_trip(self.error_id as nat);
        assert(jval_wf(JValM::Num(jnum_of_nat(self.error_id as nat))));
        assert(jpairs_wf(m, 1));
        assert(jpairs_wf(m, 0));
    }

    /// Reading back the pairs this value prints yields it again,
    /// whatever single pair (the discriminant) stands in front.
    pub proof fn lemma_round_trip(self, front: (Seq<u8>, JValM))
        requires
            front.0 == k_tag_command(),
        ensures
            Self::sdecode(seq![front] + self.jpairs()) == Some(self),
    {
        let m = seq![front] + self.jpairs();
        // field `error_id`
        assert(m[1].0 == k_error_id());
        assert forall|j: int| 0 <= j < 1 implies m[j].0 != k_error_id() by {
            if j == 0 {
                assert(k_tag_command()[0] != k_error_id()[0]);
            } else {
            }
        }
        lemma_slookup_at(m, k_error_id(), 1);
        crate::json::lemma_num_u64_round_trip(self.error_id as nat);
        assert(sget_u32(m, k_error_id()) == Some(self.error_id));
        assert(Self::sdecode(m) == Some(self));
    }

}

/// Response to a reset command.
#[derive(Debug, Clone, Copy, PartialEq, Eq, Structural)]
pub struct FrcResetResponse {
    pub error_id: u32,
}

impl FrcResetResponse {
    /// The wire pairs of this value, in declaration order.
    pub open spec fn jpairs(self) -> Seq<(Seq<u8>, JValM)> {
        seq![
            (k_error_id(), JValM::Num(jnum_of_nat(self.error_id as nat))),
        ]
    }

    pub open spec fn wf(self) -> bool {
        true
    }

    /// Reads this value out of an object's pairs, by key;
    /// unknown pairs are ignored, a missing or ill-typed field fails.
    pub open spec fn sdecode(m: Seq<(Seq<u8>, JValM)>) -> Option<FrcResetResponse> {
        match sget_u32(m, k_error_id()) {
            Some(error_id) => 
            Some(FrcResetResponse { error_id }),
            None => None,
        }
    }

    pub fn push_pairs(&self, out: &mut Vec<(Vec<u8>, JVal)>)
        ensures
            model_pairs(final(out)@, 0) == model_pairs(old(out)@, 0) + self.jpairs(),
    {
        push_field_u32(out, key_error_id(), self.error_id as u32);
        proof {
            assert(model_pairs(out@, 0) =~= model_pairs(old(out)@, 0) + self.jpairs());
        }
    }

    pub fn from_pairs(pairs: &Vec<(Vec<u8>, JVal)>) -> (r: Option<FrcResetResponse>)
        ensures
            r == Self::sdecode(model_pairs(pairs@, 0)),
    {
        let error_id = match get_u32(pairs, key_error_id().as_slice()) {
            Some(v) => v,
            None => {
                return None;
            },
        };
        Some(FrcResetResponse { error_id })
    }

    pub proof fn lemma_wf(self)
        ensures
            jpairs_wf(self.jpairs(), 0),
    {
        let m = self.jpairs();
        k_error_id_ok();
        crate::json::lemma_num_u64_round_trip(self.error_id as nat);
        assert(jval_wf(JValM::Num(jnum_of_nat(self.error_id as nat))));
        assert(jpairs_wf(m, 1));
        assert(jpairs_wf(m, 0));
    }

    /// Reading back the pairs this value prints yields it again,
    /// whatever single pair (the discriminant) stands in front.
    pub proof fn lemma_round_trip(self, front: (Seq<u8>, JValM))
        requires
            front.0 == k_tag_command(),
        ensures
            Self::sdecode(seq![front] + self.jpairs()) == Some(self),
    {
        let m = seq![front] + self.jpairs();
        // field `error_id`
        assert(m[1].0 == k_error_id());
        assert forall|j: int| 0 <= j < 1 implies m[j].0 != k_error_id() by {
            if j == 0 {
                assert(k_tag_command()[0] != k_error_id()[0]);
            } else {
            }
        }
        lemma_slookup_at(m, k_error_id(), 1);
        crate::json::lemma_num_u64_round_trip(self.error_id as nat);
        assert(sget_u32(m, k_error_id()) == Some(self.error_id));
        assert(Self::sdecode(m) == Some(self));
    }

}

/// Read recent controller errors.
#[derive(Debug, Clone, Copy, PartialEq, Eq, Structural)]
pub struct FrcReadError {
    pub count: u8,
}

impl FrcReadError {
    /// The wire pairs of this value, in declaration order.
    pub open spec fn jpairs(self) -> Seq<(Seq<u8>, JValM)> {
        seq![
            (k_count(), JValM::Num(jnum_of_nat(self.count as nat))),
        ]
    }

    pub open spec fn wf(self) -> bool {
        true
    }

    /// Reads this value out of an object's pairs, by key;
    /// unknown pairs are ignored, a missing or ill-typed field fails.
    pub open spec fn sdecode(m: Seq<(Seq<u8>, JValM)>) -> Option<FrcReadError> {
        match sget_u8(m, k_count()) {
            Some(count) => 
            Some(FrcReadError { count }),
            None => None,
        }
    }

    pub fn push_pairs(&self, out: &mut Vec<(Vec<u8>, JVal)>)
        ensures
            model_pairs(final(out)@, 0) == model_pairs(old(out)@, 0) + self.jpairs(),
    {
        push_field_u32(out, key_count(), self.count as u32);
        proof {
            assert(model_pairs(out@, 0) =~= model_pairs(old(out)@, 0) + self.jpairs());
        }
    }

    pub fn from_pairs(pairs: &Vec<(Vec<u8>, JVal)>) -> (r: Option<FrcReadError>)
        ensures
            r == Self::sdecode(model_pairs(pairs@, 0)),
    {
        let count = match get_u8(pairs, key_count().as_slice()) {
            Some(v) => v,
            None => {
                return None;
            },
        };
        Some(FrcReadError { count })
    }

    pub proof fn lemma_wf(self)
        ensures
            jpairs_wf(self.jpairs(), 0),
    {
        let m = self.jpairs();
        k_count_ok();
        crate::json::lemma_num_u64_round_trip(self.count as nat);
        assert(jval_wf(JValM::Num(jnum_of_nat(self.count as nat))));
        assert(jpairs_wf(m, 1));
        assert(jpairs_wf(m, 0));
    }

    /// Reading back the pairs this value prints yields it again,
    /// whatever single pair (the discriminant) stands in front.
    pub proof fn lemma_round_trip(self, front: (Seq<u8>, JValM))
        requires
            front.0 == k_tag_command(),
        ensures
            Self::sdecode(seq![front] + self.jpairs()) == Some(self),
    {
        let m = seq![front] + self.jpairs();
        // field `count`
        assert(m[1].0 == k_count());
        assert forall|j: int| 0 <= j < 1 implies m[j].0 != k_count() by {
            if j == 0 {
                assert(k_tag_command().len() != k_count().len());
            } else {
            }
        }
        lemma_slookup_at(m, k_count(), 1);
        crate::json::lemma_num_u64_round_trip(self.count as nat);
        assert(sget_u8(m, k_count()) == Some(self.count));
        assert(Self::sdecode(m) == Some(self));
    }
    pub fn new(count1: Option<u8>) -> (r: FrcReadError)
        ensures
            r == (FrcReadError { count: opt_or_one(count1) }),
    {
        FrcReadError { count: match count1 { Some(g) => g, None => 1 } }
    }

}

impl Default for FrcReadError {
    fn default() -> (r: FrcReadError)
        ensures
            r == (FrcReadError { count: 1u8 }),
    {
        FrcReadError { count: 1u8 }
    }
}


/// Response to a read-error command, carrying error text.
#[derive(Debug, Clone, PartialEq, Eq)]
pub struct FrcReadErrorResponse {
    pub error_id: u16,
    pub count: u8,
    pub error_data: Vec<u8>,
}

impl FrcReadErrorResponse {
    /// The wire pairs of this value, in declaration order.
    pub open spec fn jpairs(self) -> Seq<(Seq<u8>, JValM)> {
        seq![
            (k_error_id(), JValM::Num(jnum_of_nat(self.error_id as nat))),
            (k_count(), JValM::Num(jnum_of_nat(self.count as nat))),
            (k_error_data(), JValM::Str(self.error_data@)),
        ]
    }

    pub open spec fn wf(self) -> bool {
        str_ok(self.error_data@)
    }

    pub fn push_pairs(&self, out: &mut Vec<(Vec<u8>, JVal)>)
        requires
            self.wf(),
        ensures
            model_pairs(final(out)@, 0) == model_pairs(old(out)@, 0) + self.jpairs(),
    {
        push_field_u32(out, key_error_id(), self.error_id as u32);
        push_field_u32(out, key_count(), self.count as u32);
        push_field_str(out, key_error_data(), self.error_data.as_slice());
        proof {
            assert(model_pairs(out@, 0) =~= model_pairs(old(out)@, 0) + self.jpairs());
        }
    }

    pub fn from_pairs(pairs: &Vec<(Vec<u8>, JVal)>) -> (r: Option<FrcReadErrorResponse>)
        ensures
            ({
                let m = model_pairs(pairs@, 0);
                match r {
                    Some(v) => sget_u16(m, k_error_id()) == Some(v.error_id) && sget_u8(m, k_count()) == Some(v.count) && sget_str(m, k_error_data()) == Some(v.error_data@),
                    None => sget_u16(m, k_error_id()) is None || sget_u8(m, k_count()) is None || sget_str(m, k_error_data()) is None,
                }
            }),
    {
        let error_id = match get_u16(pairs, key_error_id().as_slice()) {
            Some(v) => v,
            None => {
                return None;
            },
        };
        let count = match get_u8(pairs, key_count().as_slice()) {
            Some(v) => v,
            None => {
                return None;
            },
        };
        let error_data = match get_str(pairs, key_error_data().as_slice()) {
            Some(v) => v,
            None => {
                return None;
            },
        };
        Some(FrcReadErrorResponse { error_id, count, error_data })
    }

    pub proof fn lemma_wf(self)
        requires
            self.wf(),
        ensures
            jpairs_wf(self.jpairs(), 0),
    {
        let m = self.jpairs();
        k_error_id_ok();
        k_count_ok();
        k_error_data_ok();
        crate::json::lemma_num_u64_round_trip(self.error_id as nat);
        crate::json::lemma_num_u64_round_trip(self.count as nat);
        assert(jval_wf(JValM::Num(jnum_of_nat(self.error_id as nat))));
        assert(jval_wf(JValM::Num(jnum_of_nat(self.count as nat))));
        assert(jval_wf(JValM::Str(self.error_data@)));
        assert(jpairs_wf(m, 3));
        assert(jpairs_wf(m, 2));
        assert(jpairs_wf(m, 1));
        assert(jpairs_wf(m, 0));
    }

    /// The printed pairs carry exactly the fields, whatever single
    /// pair (the discriminant) stands in front.
    pub proof fn lemma_round_trip(self, front: (Seq<u8>, JValM))
        requires
            self.wf(),
            front.0 == k_tag_command(),
        ensures
            ({
                let m = seq![front] + self.jpairs();
                sget_u16(m, k_error_id()) == Some(self.error_id) && sget_u8(m, k_count()) == Some(self.count) && sget_str(m, k_error_data()) == Some(self.error_data@)
            }),
    {
        let m = seq![front] + self.jpairs();
        // field `error_id`
        assert(m[1].0 == k_error_id());
        assert forall|j: int| 0 <= j < 1 implies m[j].0 != k_error_id() by {
            if j == 0 {
                assert(k_tag_command()[0] != k_error_id()[0]);
            } else {
            }
        }
        lemma_slookup_at(m, k_error_id(), 1);
        crate::json::lemma_num_u64_round_trip(self.error_id as nat);
        assert(sget_u16(m, k_error_id()) == Some(self.error_id));
        // field `count`
        assert(m[2].0 == k_count());
        assert forall|j: int| 0 <= j < 2 implies m[j].0 != k_count() by {
            if j == 0 {
                assert(k_tag_command().len() != k_count().len());
            } else if j == 1 {
                assert(k_error_id().len() != k_count().len());
            } else {
            }
        }
        lemma_slookup_at(m, k_count(), 2);
        crate::json::lemma_num_u64_round_trip(self.count as nat);
        assert(sget_u8(m, k_count()) == Some(self.count));
        // field `error_data`
        assert(m[3].0 == k_error_data());
        assert forall|j: int| 0 <= j < 3 implies m[j].0 != k_error_data() by {
            if j == 0 {
                assert(k_tag_command().len() != k_error_data().len());
            } else if j == 1 {
                assert(k_error_id().len() != k_error_data().len());
            } else if j == 2 {
                assert(k_count().len() != k_error_data().len());
            } else {
            }
        }
        lemma_slookup_at(m, k_error_data(), 3);
        assert(sget_str(m, k_error_data()) == Some(self.error_data@));
    }

}

/// Select the active user frame and tool.
#[derive(Debug, Clone, Copy, PartialEq, Eq, Structural)]
pub struct FrcSetUFrameUTool {
    pub group: u8,
    pub uframe_number: u8,
    pub utool_number: u8,
}

impl FrcSetUFrameUTool {
    /// The wire pairs of this value, in declaration order.
    pub open spec fn jpairs(self) -> Seq<(Seq<u8>, JValM)> {
        seq![
            (k_group(), JValM::Num(jnum_of_nat(self.group as nat))),
            (k_uframe_number(), JValM::Num(jnum_of_nat(self.uframe_number as nat))),
            (k_utool_number(), JValM::Num(jnum_of_nat(self.utool_number as nat))),
        ]
    }

    pub open spec fn wf(self) -> bool {
        true
    }

    /// Reads this value out of an object's pairs, by key;
    /// unknown pairs are ignored, a missing or ill-typed field fails.
    pub open spec fn sdecode(m: Seq<(Seq<u8>, JValM)>) -> Option<FrcSetUFrameUTool> {
        match sget_u8(m, k_group()) {
            Some(group) => 
            match sget_u8(m, k_uframe_number()) {
                Some(uframe_number) => 
                match sget_u8(m, k_utool_number()) {
                    Some(utool_number) => 
                    Some(FrcSetUFrameUTool { group, uframe_number, utool_number }),
                    None => None,
                },
                None => None,
            },
            None => None,
        }
    }

    pub fn push_pairs(&self, out: &mut Vec<(Vec<u8>, JVal)>)
        ensures
            model_pairs(final(out)@, 0) == model_pairs(old(out)@, 0) + self.jpairs(),
    {
        push_field_u32(out, key_group(), self.group as u32);
        push_field_u32(out, key_uframe_number(), self.uframe_number as u32);
        push_field_u32(out, key_utool_number(), self.utool_number as u32);
        proof {
            assert(model_pairs(out@, 0) =~= model_pairs(old(out)@, 0) + self.jpairs());
        }
    }

    pub fn from_pairs(pairs: &Vec<(Vec<u8>, JVal)>) -> (r: Option<FrcSetUFrameUTool>)
        ensures
            r == Self::sdecode(model_pairs(pairs@, 0)),
    {
        let group = match get_u8(pairs, key_group().as_slice()) {
            Some(v) => v,
            None => {
                return None;
            },
        };
        let uframe_number = match get_u8(pairs, key_uframe_number().as_slice()) {
            Some(v) => v,
            None => {
                return None;
            },
        };
        let utool_number = match get_u8(pairs, key_utool_number().as_slice()) {
            Some(v) => v,
            None => {
                return None;
            },
        };
        Some(FrcSetUFrameUTool { group, uframe_number, utool_number })
    }

    pub proof fn lemma_wf(self)
        ensures
            jpairs_wf(self.jpairs(), 0),
    {
        let m = self.jpairs();
        k_group_ok();
        k_uframe_number_ok();
        k_utool_number_ok();
        crate::json::lemma_num_u64_round_trip(self.group as nat);
        crate::json::lemma_num_u64_round_trip(self.uframe_number as nat);
        crate::json::lemma_num_u64_round_trip(self.utool_number as nat);
        assert(jval_wf(JValM::Num(jnum_of_nat(self.group as nat))));
        assert(jval_wf(JValM::Num(jnum_of_nat(self.uframe_number as nat))));
        assert(jval_wf(JValM::Num(jnum_of_nat(self.utool_number as nat))));
        assert(jpairs_wf(m, 3));
        assert(jpairs_wf(m, 2));
        assert(jpairs_wf(m, 1));
        assert(jpairs_wf(m, 0));
    }

    /// Reading back the pairs this value prints yields it again,
    /// whatever single pair (the discriminant) stands in front.
    pub proof fn lemma_round_trip(self, front: (Seq<u8>, JValM))
        requires
            front.0 == k_tag_command(),
        ensures
            Self::sdecode(seq![front] + self.jpairs()) == Some(self),
    {
        let m = seq![front] + self.jpairs();
        // field `group`
        assert(m[1].0 == k_group());
        assert forall|j: int| 0 <= j < 1 implies m[j].0 != k_group() by {
            if j == 0 {
                assert(k_tag_command().len() != k_group().len());
            } else {
            }
        }
        lemma_slookup_at(m, k_group(), 1);
        crate::json::lemma_num_u64_round_trip(self.group as nat);
        assert(sget_u8(m, k_group()) == Some(self.group));
        // field `uframe_number`
        assert(m[2].0 == k_uframe_number());
        assert forall|j: int| 0 <= j < 2 implies m[j].0 != k_uframe_number() by {
            if j == 0 {
                assert(k_tag_command().len() != k_uframe_number().len());
            } else if j == 1 {
                assert(k_group().len() != k_uframe_number().len());
            } else {
            }
        }
        lemma_slookup_at(m, k_uframe_number(), 2);
        crate::json::lemma_num_u64_round_trip(self.uframe_number as nat);
        assert(sget_u8(m, k_uframe_number()) == Some(self.uframe_number));
        // field `utool_number`
        assert(m[3].0 == k_utool_number());
        assert forall|j: int| 0 <= j < 3 implies m[j].0 != k_utool_number() by {
            if j == 0 {
                assert(k_tag_command().len() != k_utool_number().len());
            } else if j == 1 {
                assert(k_group().len() != k_utool_number().len());
            } else if j == 2 {
                assert(k_uframe_number().len() != k_utool_number().len());
            } else {
            }
        }
        lemma_slookup_at(m, k_utool_number(), 3);
        crate::json::lemma_num_u64_round_trip(self.utool_number as nat);
        assert(sget_u8(m, k_utool_number()) == Some(self.utool_number));
        assert(Self::sdecode(m) == Some(self));
    }
    pub fn new(groupentered: Option<u8>, tool_num: u8, frame_num: u8) -> (r: FrcSetUFrameUTool)
        ensures
            r == (FrcSetUFrameUTool { group: opt_or_one(groupentered), uframe_number: frame_num, utool_number: tool_num }),
    {
        FrcSetUFrameUTool { group: match groupentered { Some(g) => g, None => 1 }, uframe_number: frame_num, utool_number: tool_num }
    }

}

/// Response to a set-frame-and-tool command.
#[derive(Debug, Clone, Copy, PartialEq, Eq, Structural)]
pub struct FrcSetUFrameUToolResponse {
    pub error_id: u32,
    pub group: u16,
}

impl FrcSetUFrameUToolResponse {
    /// The wire pairs of this value, in declaration order.
    pub open spec fn jpairs(self) -> Seq<(Seq<u8>, JValM)> {
        seq![
            (k_error_id(), JValM::Num(jnum_of_nat(self.error_id as nat))),
            (k_group(), JValM::Num(jnum_of_nat(self.group as nat))),
        ]
    }

    pub open spec fn wf(self) -> bool {
        true
    }

    /// Reads this value out of an object's pairs, by key;
    /// unknown pairs are ignored, a missing or ill-typed field fails.
    pub open spec fn sdecode(m: Seq<(Seq<u8>, JValM)>) -> Option<FrcSetUFrameUToolResponse> {
        match sget_u32(m, k_error_id()) {
            Some(error_id) => 
            match sget_u16(m, k_group()) {
                Some(group) => 
                Some(FrcSetUFrameUToolResponse { error_id, group }),
                None => None,
            },
            None => None,
        }
    }

    pub fn push_pairs(&self, out: &mut Vec<(Vec<u8>, JVal)>)
        ensures
            model_pairs(final(out)@, 0) == model_pairs(old(out)@, 0) + self.jpairs(),
    {
        push_field_u32(out, key_error_id(), self.error_id as u32);
        push_field_u32(out, key_group(), self.group as u32);
        proof {
            assert(model_pairs(out@, 0) =~= model_pairs(old(out)@, 0) + self.jpairs());
        }
    }

    pub fn from_pairs(pairs: &Vec<(Vec<u8>, JVal)>) -> (r: Option<FrcSetUFrameUToolResponse>)
        ensures
            r == Self::sdecode(model_pairs(pairs@, 0)),
    {
        let error_id = match get_u32(pairs, key_error_id().as_slice()) {
            Some(v) => v,
            None => {
                return None;
            },
        };
        let group = match get_u16(pairs, key_group().as_slice()) {
            Some(v) => v,
            None => {
                return None;
            },
        };
        Some(FrcSetUFrameUToolResponse { error_id, group })
    }

    pub proof fn lemma_wf(self)
        ensures
            jpairs_wf(self.jpairs(), 0),
    {
        let m = self.jpairs();
        k_error_id_ok();
        k_group_ok();
        crate::json::lemma_num_u64_round_trip(self.error_id as nat);
        crate::json::lemma_num_u64_round_trip(self.group as nat);
        assert(jval_wf(JValM::Num(jnum_of_nat(self.error_id as nat))));
        assert(jval_wf(JValM::Num(jnum_of_nat(self.group as nat))));
        assert(jpairs_wf(m, 2));
        assert(jpairs_wf(m, 1));
        assert(jpairs_wf(m, 0));
    }

    /// Reading back the pairs this value prints yields it again,
    /// whatever single pair (the discriminant) stands in front.
    pub proof fn lemma_round_trip(self, front: (Seq<u8>, JValM))
        requires
            front.0 == k_tag_command(),
        ensures
            Self::sdecode(seq![front] + self.jpairs()) == Some(self),
    {
        let m = seq![front] + self.jpairs();
        // field `error_id`
        assert(m[1].0 == k_error_id());
        assert forall|j: int| 0 <= j < 1 implies m[j].0 != k_error_id() by {
            if j == 0 {
                assert(k_tag_command()[0] != k_error_id()[0]);
            } else {
            }
        }
        lemma_slookup_at(m, k_error_id(), 1);
        crate::json::lemma_num_u64_round_trip(self.error_id as nat);
        assert(sget_u32(m, k_error_id()) == Some(self.error_id));
        // field `group`
        assert(m[2].0 == k_group());
        assert forall|j: int| 0 <= j < 2 implies m[j].0 != k_group() by {
            if j == 0 {
                assert(k_tag_command().len() != k_group().len());
            } else if j == 1 {
                assert(k_error_id().len() != k_group().len());
            } else {
            }
        }
        lemma_slookup_at(m, k_group(), 2);
        crate::json::lemma_num_u64_round_trip(self.group as nat);
        assert(sget_u16(m, k_group()) == Some(self.group));
        assert(Self::sdecode(m) == Some(self));
    }

}

/// Read the active user frame and tool numbers.
#[derive(Debug, Clone, Copy, PartialEq, Eq, Structural)]
pub struct FrcGetUFrameUTool {
    pub group: u8,
}

impl FrcGetUFrameUTool {
    /// The wire pairs of this value, in declaration order.
    pub open spec fn jpairs(self) -> Seq<(Seq<u8>, JValM)> {
        seq![
            (k_group(), JValM::Num(jnum_of_nat(self.group as nat))),
        ]
    }

    pub open spec fn wf(self) -> bool {
        true
    }

    /// Reads this value out of an object's pairs, by key;
    /// unknown pairs are ignored, a missing or ill-typed field fails.
    pub open spec fn sdecode(m: Seq<(Seq<u8>, JValM)>) -> Option<FrcGetUFrameUTool> {
        match sget_u8(m, k_group()) {
            Some(group) => 
            Some(FrcGetUFrameUTool { group }),
            None => None,
        }
    }

    pub fn push_pairs(&self, out: &mut Vec<(Vec<u8>, JVal)>)
        ensures
            model_pairs(final(out)@, 0) == model_pairs(old(out)@, 0) + self.jpairs(),
    {
        push_field_u32(out, key_group(), self.group as u32);
        proof {
            assert(model_pairs(out@, 0) =~= model_pairs(old(out)@, 0) + self.jpairs());
        }
    }

    pub fn from_pairs(pairs: &Vec<(Vec<u8>, JVal)>) -> (r: Option<FrcGetUFrameUTool>)
        ensures
            r == Self::sdecode(model_pairs(pairs@, 0)),
    {
        let group = match get_u8(pairs, key_group().as_slice()) {
            Some(v) => v,
            None => {
                return None;
            },
        };
        Some(FrcGetUFrameUTool { group })
    }

    pub proof fn lemma_wf(self)
        ensures
            jpairs_wf(self.jpairs(), 0),
    {
        let m = self.jpairs();
        k_group_ok();
        crate::json::lemma_num_u64_round_trip(self.group as nat);
        assert(jval_wf(JValM::Num(jnum_of_nat(self.group as nat))));
        assert(jpairs_wf(m, 1));
        assert(jpairs_wf(m, 0));
    }

    /// Reading back the pairs this value prints yields it again,
    /// whatever single pair (the discriminant) stands in front.
    pub proof fn lemma_round_trip(self, front: (Seq<u8>, JValM))
        requires
            front.0 == k_tag_command(),
        ensures
            Self::sdecode(seq![front] + self.jpairs()) == Some(self),
    {
        let m = seq![front] + self.jpairs();
        // field `group`
        assert(m[1].0 == k_group());
        assert forall|j: int| 0 <= j < 1 implies m[j].0 != k_group() by {
            if j == 0 {
                assert(k_tag_command().len() != k_group().len());
            } else {
            }
        }
        lemma_slookup_at(m, k_group(), 1);
        crate::json::lemma_num_u64_round_trip(self.group as nat);
        assert(sget_u8(m, k_group()) == Some(self.group));
        assert(Self::sdecode(m) == Some(self));
    }
    pub fn new(groupentered: Option<u8>) -> (r: FrcGetUFrameUTool)
        ensures
            r == (FrcGetUFrameUTool { group: opt_or_one(groupentered) }),
    {
        FrcGetUFrameUTool { group: match groupentered { Some(g) => g, None => 1 } }
    }

}

/// Response to a get-frame-and-tool command.
#[derive(Debug, Clone, Copy, PartialEq, Eq, Structural)]
pub struct FrcGetUFrameUToolResponse {
    pub uframe_number: u8,
    pub utool_number: u8,
    pub error_id: u32,
    pub group: u16,
}

impl FrcGetUFrameUToolResponse {
    /// The wire pairs of this value, in declaration order.
    pub open spec fn jpairs(self) -> Seq<(Seq<u8>, JValM)> {
        seq![
            (k_uframe_number(), JValM::Num(jnum_of_nat(self.uframe_number as nat))),
            (k_utool_number(), JValM::Num(jnum_of_nat(self.utool_number as nat))),
            (k_error_id(), JValM::Num(jnum_of_nat(self.error_id as nat))),
            (k_group(), JValM::Num(jnum_of_nat(self.group as nat))),
        ]
    }

    pub open spec fn wf(self) -> bool {
        true
    }

    /// Reads this value out of an object's pairs, by key;
    /// unknown pairs are ignored, a missing or ill-typed field fails.
    pub open spec fn sdecode(m: Seq<(Seq<u8>, JValM)>) -> Option<FrcGetUFrameUToolResponse> {
        match sget_u8(m, k_uframe_number()) {
            Some(uframe_number) => 
            match sget_u8(m, k_utool_number()) {
                Some(utool_number) => 
                match sget_u32(m, k_error_id()) {
                    Some(error_id) => 
                    match sget_u16(m, k_group()) {
                        Some(group) => 
                        Some(FrcGetUFrameUToolResponse { uframe_number, utool_number, error_id, group }),
                        None => None,
                    },
                    None => None,
                },
                None => None,
            },
            None => None,
        }
    }

    pub fn push_pairs(&self, out: &mut Vec<(Vec<u8>, JVal)>)
        ensures
            model_pairs(final(out)@, 0) == model_pairs(old(out)@, 0) + self.jpairs(),
    {
        push_field_u32(out, key_uframe_number(), self.uframe_number as u32);
        push_field_u32(out, key_utool_number(), self.utool_number as u32);
        push_field_u32(out, key_error_id(), self.error_id as u32);
        push_field_u32(out, key_group(), self.group as u32);
        proof {
            assert(model_pairs(out@, 0) =~= model_pairs(old(out)@, 0) + self.jpairs());
        }
    }

    pub fn from_pairs(pairs: &Vec<(Vec<u8>, JVal)>) -> (r: Option<FrcGetUFrameUToolResponse>)
        ensures
            r == Self::sdecode(model_pairs(pairs@, 0)),
    {
        let uframe_number = match get_u8(pairs, key_uframe_number().as_slice()) {
            Some(v) => v,
            None => {
                return None;
            },
        };
        let utool_number = match get_u8(pairs, key_utool_number().as_slice()) {
            Some(v) => v,
            None => {
                return None;
            },
        };
        let error_id = match get_u32(pairs, key_error_id().as_slice()) {
            Some(v) => v,
            None => {
                return None;
            },
        };
        let group = match get_u16(pairs, key_group().as_slice()) {
            Some(v) => v,
            None => {
                return None;
            },
        };
        Some(FrcGetUFrameUToolResponse { uframe_number, utool_number, error_id, group })
    }

    pub proof fn lemma_wf(self)
        ensures
            jpairs_wf(self.jpairs(), 0),
    {
        let m = self.jpairs();
        k_uframe_number_ok();
        k_utool_number_ok();
        k_error_id_ok();
        k_group_ok();
        crate::json::lemma_num_u64_round_trip(self.uframe_number as nat);
        crate::json::lemma_num_u64_round_trip(self.utool_number as nat);
        crate::json::lemma_num_u64_round_trip(self.error_id as nat);
        crate::json::lemma_num_u64_round_trip(self.group as nat);
        assert(jval_wf(JValM::Num(jnum_of_nat(self.uframe_number as nat))));
        assert(jval_wf(JValM::Num(jnum_of_nat(self.utool_number as nat))));
        assert(jval_wf(JValM::Num(jnum_of_nat(self.error_id as nat))));
        assert(jval_wf(JValM::Num(jnum_of_nat(self.group as nat))));
        assert(jpairs_wf(m, 4));
        assert(jpairs_wf(m, 3));
        assert(jpairs_wf(m, 2));
        assert(jpairs_wf(m, 1));
        assert(jpairs_wf(m, 0));
    }

    /// Reading back the pairs this value prints yields it again,
    /// whatever single pair (the discriminant) stands in front.
    pub proof fn lemma_round_trip(self, front: (Seq<u8>, JValM))
        requires
            front.0 == k_tag_command(),
        ensures
            Self::sdecode(seq![front] + self.jpairs()) == Some(self),
    {
        let m = seq![front] + self.jpairs();
        // field `uframe_number`
        assert(m[1].0 == k_uframe_number());
        assert forall|j: int| 0 <= j < 1 implies m[j].0 != k_uframe_number() by {
            if j == 0 {
                assert(k_tag_command().len() != k_uframe_number().len());
            } else {
            }
        }
        lemma_slookup_at(m, k_uframe_number(), 1);
        crate::json::lemma_num_u64_round_trip(self.uframe_number as nat);
        assert(sget_u8(m, k_uframe_number()) == Some(self.uframe_number));
        // field `utool_number`
        assert(m[2].0 == k_utool_number());
        assert forall|j: int| 0 <= j < 2 implies m[j].0 != k_utool_number() by {
            if j == 0 {
                assert(k_tag_command().len() != k_utool_number().len());
            } else if j == 1 {
                assert(k_uframe_number().len() != k_utool_number().len());
            } else {
            }
        }
        lemma_slookup_at(m, k_utool_number(), 2);
        crate::json::lemma_num_u64_round_trip(self.utool_number as nat);
        assert(sget_u8(m, k_utool_number()) == Some(self.utool_number));
        // field `error_id`
        assert(m[3].0 == k_error_id());
        assert forall|j: int| 0 <= j < 3 implies m[j].0 != k_error_id() by {
            if j == 0 {
                assert(k_tag_command()[0] != k_error_id()[0]);
            } else if j == 1 {
                assert(k_uframe_number().len() != k_error_id().len());
            } else if j == 2 {
                assert(k_utool_number().len() != k_error_id().len());
            } else {
            }
        }
        lemma_slookup_at(m, k_error_id(), 3);
        crate::json::lemma_num_u64_round_trip(self.error_id as nat);
        assert(sget_u32(m, k_error_id()) == Some(self.error_id));
        // field `group`
        assert(m[4].0 == k_group());
        assert forall|j: int| 0 <= j < 4 implies m[j].0 != k_group() by {
            if j == 0 {
                assert(k_tag_command().len() != k_group().len());
            } else if j == 1 {
                assert(k_uframe_number().len() != k_group().len());
            } else if j == 2 {
                assert(k_utool_number().len() != k_group().len());
            } else if j == 3 {
                assert(k_error_id().len() != k_group().len());
            } else {
            }
        }
        lemma_slookup_at(m, k_group(), 4);
        crate::json::lemma_num_u64_round_trip(self.group as nat);
        assert(sget_u16(m, k_group()) == Some(self.group));
        assert(Self::sdecode(m) == Some(self));
    }

}

/// Response to a get-status command.
#[derive(Debug, Clone, Copy, PartialEq, Eq, Structural)]
pub struct FrcGetStatusResponse {
    pub error_id: u32,
    pub servo_ready: i8,
    pub tp_mode: i8,
    pub rmi_motion_status: i8,
    pub program_status: i8,
    pub single_step_mode: i8,
    pub number_utool: i8,
    pub number_uframe: i8,
}

impl FrcGetStatusResponse {
    /// The wire pairs of this value, in declaration order.
    pub open spec fn jpairs(self) -> Seq<(Seq<u8>, JValM)> {
        seq![
            (k_error_id(), JValM::Num(jnum_of_nat(self.error_id as nat))),
            (k_servo_ready(), JValM::Num(jnum_of_int(self.servo_ready as int))),
            (k_tp_mode(), JValM::Num(jnum_of_int(self.tp_mode as int))),
            (k_rmi_motion_status(), JValM::Num(jnum_of_int(self.rmi_motion_status as int))),
            (k_program_status(), JValM::Num(jnum_of_int(self.program_status as int))),
            (k_single_step_mode(), JValM::Num(jnum_of_int(self.single_step_mode as int))),
            (k_number_utool(), JValM::Num(jnum_of_int(self.number_utool as int))),
            (k_number_uframe(), JValM::Num(jnum_of_int(self.number_uframe as int))),
        ]
    }

    pub open spec fn wf(self) -> bool {
        true
    }

    /// Reads this value out of an object's pairs, by key;
    /// unknown pairs are ignored, a missing or ill-typed field fails.
    pub open spec fn sdecode(m: Seq<(Seq<u8>, JValM)>) -> Option<FrcGetStatusResponse> {
        match sget_u32(m, k_error_id()) {
            Some(error_id) => 
            match sget_i8(m, k_servo_ready()) {
                Some(servo_ready) => 
                match sget_i8(m, k_tp_mode()) {
                    Some(tp_mode) => 
                    match sget_i8(m, k_rmi_motion_status()) {
                        Some(rmi_motion_status) => 
                        match sget_i8(m, k_program_status()) {
                            Some(program_status) => 
                            match sget_i8(m, k_single_step_mode()) {
                                Some(single_step_mode) => 
                                match sget_i8(m, k_number_utool()) {
                                    Some(number_utool) => 
                                    match sget_i8(m, k_number_uframe()) {
                                        Some(number_uframe) => 
                                        Some(FrcGetStatusResponse { error_id, servo_ready, tp_mode, rmi_motion_status, program_status, single_step_mode, number_utool, number_uframe }),
                                        None => None,
                                    },
                                    None => None,
                                },
                                None => None,
                            },
                            None => None,
                        },
                        None => None,
                    },
                    None => None,
                },
                None => None,
            },
            None => None,
        }
    }

    #[verifier::rlimit(60)]
    pub fn push_pairs(&self, out: &mut Vec<(Vec<u8>, JVal)>)
        ensures
            model_pairs(final(out)@, 0) == model_pairs(old(out)@, 0) + self.jpairs(),
    {
        push_field_u32(out, key_error_id(), self.error_id as u32);
        push_field_i32(out, key_servo_ready(), self.servo_ready as i32);
        push_field_i32(out, key_tp_mode(), self.tp_mode as i32);
        push_field_i32(out, key_rmi_motion_status(), self.rmi_motion_status as i32);
        push_field_i32(out, key_program_status(), self.program_status as i32);
        push_field_i32(out, key_single_step_mode(), self.single_step_mode as i32);
        push_field_i32(out, key_number_utool(), self.number_utool as i32);
        push_field_i32(out, key_number_uframe(), self.number_uframe as i32);
        proof {
            assert(model_pairs(out@, 0) =~= model_pairs(old(out)@, 0) + self.jpairs());
        }
    }

    pub fn from_pairs(pairs: &Vec<(Vec<u8>, JVal)>) -> (r: Option<FrcGetStatusResponse>)
        ensures
            r == Self::sdecode(model_pairs(pairs@, 0)),
    {
        let error_id = match get_u32(pairs, key_error_id().as_slice()) {
            Some(v) => v,
            None => {
                return None;
            },
        };
        let servo_ready = match get_i8(pairs, key_servo_ready().as_slice()) {
            Some(v) => v,
            None => {
                return None;
            },
        };
        let tp_mode = match get_i8(pairs, key_tp_mode().as_slice()) {
            Some(v) => v,
            None => {
                return None;
            },
        };
        let rmi_motion_status = match get_i8(pairs, key_rmi_motion_status().as_slice()) {
            Some(v) => v,
            None => {
                return None;
            },
        };
        let program_status = match get_i8(pairs, key_program_status().as_slice()) {
            Some(v) => v,
            None => {
                return None;
            },
        };
        let single_step_mode = match get_i8(pairs, key_single_step_mode().as_slice()) {
            Some(v) => v,
            None => {
                return None;
            },
        };
        let number_utool = match get_i8(pairs, key_number_utool().as_slice()) {
            Some(v) => v,
            None => {
                return None;
            },
        };
        let number_uframe = match get_i8(pairs, key_number_uframe().as_slice()) {
            Some(v) => v,
            None => {
                return None;
            },
        };
        Some(FrcGetStatusResponse { error_id, servo_ready, tp_mode, rmi_motion_status, program_status, single_step_mode, number_utool, number_uframe })
    }

    pub proof fn lemma_wf(self)
        ensures
            jpairs_wf(self.jpairs(), 0),
    {
        let m = self.jpairs();
        k_error_id_ok();
        k_servo_ready_ok();
        k_tp_mode_ok();
        k_rmi_motion_status_ok();
        k_program_status_ok();
        k_single_step_mode_ok();
        k_number_utool_ok();
        k_number_uframe_ok();
        crate::json::lemma_num_u64_round_trip(self.error_id as nat);
        crate::json::lemma_num_i64_round_trip(self.servo_ready as int);
        crate::json::lemma_num_i64_round_trip(self.tp_mode as int);
        crate::json::lemma_num_i64_round_trip(self.rmi_motion_status as int);
        crate::json::lemma_num_i64_round_trip(self.program_status as int);
        crate::json::lemma_num_i64_round_trip(self.single_step_mode as int);
        crate::json::lemma_num_i64_round_trip(self.number_utool as int);
        crate::json::lemma_num_i64_round_trip(self.number_uframe as int);
        assert(jval_wf(JValM::Num(jnum_of_nat(self.error_id as nat))));
        assert(jval_wf(JValM::Num(jnum_of_int(self.servo_ready as int))));
        assert(jval_wf(JValM::Num(jnum_of_int(self.tp_mode as int))));
        assert(jval_wf(JValM::Num(jnum_of_int(self.rmi_motion_status as int))));
        assert(jval_wf(JValM::Num(jnum_of_int(self.program_status as int))));
        assert(jval_wf(JValM::Num(jnum_of_int(self.single_step_mode as int))));
        assert(jval_wf(JValM::Num(jnum_of_int(self.number_utool as int))));
        assert(jval_wf(JValM::Num(jnum_of_int(self.number_uframe as int))));
        assert(jpairs_wf(m, 8));
        assert(jpairs_wf(m, 7));
        assert(jpairs_wf(m, 6));
        assert(jpairs_wf(m, 5));
        assert(jpairs_wf(m, 4));
        assert(jpairs_wf(m, 3));
        assert(jpairs_wf(m, 2));
        assert(jpairs_wf(m, 1));
        assert(jpairs_wf(m, 0));
    }

    /// Reading back the pairs this value prints yields it again,
    /// whatever single pair (the discriminant) stands in front.
    pub proof fn lemma_round_trip(self, front: (Seq<u8>, JValM))
        requires
            front.0 == k_tag_command(),
        ensures
            Self::sdecode(seq![front] + self.jpairs()) == Some(self),
    {
        let m = seq![front] + self.jpairs();
        // field `error_id`
        assert(m[1].0 == k_error_id());
        assert forall|j: int| 0 <= j < 1 implies m[j].0 != k_error_id() by {
            if j == 0 {
                assert(k_tag_command()[0] != k_error_id()[0]);
            } else {
            }
        }
        lemma_slookup_at(m, k_error_id(), 1);
        crate::json::lemma_num_u64_round_trip(self.error_id as nat);
        assert(sget_u32(m, k_error_id()) == Some(self.error_id));
        // field `servo_ready`
        assert(m[2].0 == k_servo_ready());
        assert forall|j: int| 0 <= j < 2 implies m[j].0 != k_servo_ready() by {
            if j == 0 {
                assert(k_tag_command().len() != k_servo_ready().len());
            } else if j == 1 {
                assert(k_error_id().len() != k_servo_ready().len());
            } else {
            }
        }
        lemma_slookup_at(m, k_servo_ready(), 2);
        crate::json::lemma_num_i64_round_trip(self.servo_ready as int);
        assert(sget_i8(m, k_servo_ready()) == Some(self.servo_ready));
        // field `tp_mode`
        assert(m[3].0 == k_tp_mode());
        assert forall|j: int| 0 <= j < 3 implies m[j].0 != k_tp_mode() by {
            if j == 0 {
                assert(k_tag_command().len() != k_tp_mode().len());
            } else if j == 1 {
                assert(k_error_id().len() != k_tp_mode().len());
            } else if j == 2 {
                assert(k_servo_ready().len() != k_tp_mode().len());
            } else {
            }
        }
        lemma_slookup_at(m, k_tp_mode(), 3);
        crate::json::lemma_num_i64_round_trip(self.tp_mode as int);
        assert(sget_i8(m, k_tp_mode()) == Some(self.tp_mode));
        // field `rmi_motion_status`
        assert(m[4].0 == k_rmi_motion_status());
        assert forall|j: int| 0 <= j < 4 implies m[j].0 != k_rmi_motion_status() by {
            if j == 0 {
                assert(k_tag_command().len() != k_rmi_motion_status().len());
            } else if j == 1 {
                assert(k_error_id().len() != k_rmi_motion_status().len());
            } else if j == 2 {
                assert(k_servo_ready().len() != k_rmi_motion_status().len());
            } else if j == 3 {
                assert(k_tp_mode().len() != k_rmi_motion_status().len());
            } else {
            }
        }
        lemma_slookup_at(m, k_rmi_motion_status(), 4);
        crate::json::lemma_num_i64_round_trip(self.rmi_motion_status as int);
        assert(sget_i8(m, k_rmi_motion_status()) == Some(self.rmi_motion_status));
        // field `program_status`
        assert(m[5].0 == k_program_status());
        assert forall|j: int| 0 <= j < 5 implies m[j].0 != k_program_status() by {
            if j == 0 {
                assert(k_tag_command().len() != k_program_status().len());
            } else if j == 1 {
                assert(k_error_id().len() != k_program_status().len());
            } else if j == 2 {
                assert(k_servo_ready().len() != k_program_status().len());
            } else if j == 3 {
                assert(k_tp_mode().len() != k_program_status().len());
            } else if j == 4 {
                assert(k_rmi_motion_status().len() != k_program_status().len());
            } else {
            }
        }
        lemma_slookup_at(m, k_program_status(), 5);
        crate::json::lemma_num_i64_round_trip(self.program_status as int);
        assert(sget_i8(m, k_program_status()) == Some(self.program_status));
        // field `single_step_mode`
        assert(m[6].0 == k_single_step_mode());
        assert forall|j: int| 0 <= j < 6 implies m[j].0 != k_single_step_mode() by {
            if j == 0 {
                assert(k_tag_command().len() != k_single_step_mode().len());
            } else if j == 1 {
                assert(k_error_id().len() != k_single_step_mode().len());
            } else if j == 2 {
                assert(k_servo_ready().len() != k_single_step_mode().len());
            } else if j == 3 {
                assert(k_tp_mode().len() != k_single_step_mode().len());
            } else if j == 4 {
                assert(k_rmi_motion_status().len() != k_single_step_mode().len());
            } else if j == 5 {
                assert(k_program_status().len() != k_single_step_mode().len());
            } else {
            }
        }
        lemma_slookup_at(m, k_single_step_mode(), 6);
        crate::json::lemma_num_i64_round_trip(self.single_step_mode as int);
        assert(sget_i8(m, k_single_step_mode()) == Some(self.single_step_mode));
        // field `number_utool`
        assert(m[7].0 == k_number_utool());
        assert forall|j: int| 0 <= j < 7 implies m[j].0 != k_number_utool() by {
            if j == 0 {
                assert(k_tag_command().len() != k_number_utool().len());
            } else if j == 1 {
                assert(k_error_id().len() != k_number_utool().len());
            } else if j == 2 {
                assert(k_servo_ready().len() != k_number_utool().len());
            } else if j == 3 {
                assert(k_tp_mode().len() != k_number_utool().len());
            } else if j == 4 {
                assert(k_rmi_motion_status().len() != k_number_utool().len());
            } else if j == 5 {
                assert(k_program_status().len() != k_number_utool().len());
            } else if j == 6 {
                assert(k_single_step_mode().len() != k_number_utool().len());
            } else {
            }
        }
        lemma_slookup_at(m, k_number_utool(), 7);
        crate::json::lemma_num_i64_round_trip(self.number_utool as int);
        assert(sget_i8(m, k_number_utool()) == Some(self.number_utool));
        // field `number_uframe`
        assert(m[8].0 == k_number_uframe());
        assert forall|j: int| 0 <= j < 8 implies m[j].0 != k_number_uframe() by {
            if j == 0 {
                assert(k_tag_command().len() != k_number_uframe().len());
            } else if j == 1 {
                assert(k_error_id().len() != k_number_uframe().len());
            } else if j == 2 {
                assert(k_servo_ready().len() != k_number_uframe().len());
            } else if j == 3 {
                assert(k_tp_mode().len() != k_number_uframe().len());
            } else if j == 4 {
                assert(k_rmi_motion_status().len() != k_number_uframe().len());
            } else if j == 5 {
                assert(k_program_status().len() != k_number_uframe().len());
            } else if j == 6 {
                assert(k_single_step_mode().len() != k_number_uframe().len());
            } else if j == 7 {
                assert(k_number_utool().len() != k_number_uframe().len());
            } else {
            }
        }
        lemma_slookup_at(m, k_number_uframe(), 8);
        crate::json::lemma_num_i64_round_trip(self.number_uframe as int);
        assert(sget_i8(m, k_number_uframe()) == Some(self.number_uframe));
        assert(Self::sdecode(m) == Some(self));
    }

}

/// Read a user frame's pose.
#[derive(Debug, Clone, Copy, PartialEq, Eq, Structural)]
pub struct FrcReadUFrameData {
    pub frame_number: i8,
    pub group: u8,
}

impl FrcReadUFrameData {
    /// The wire pairs of this value, in declaration order.
    pub open spec fn jpairs(self) -> Seq<(Seq<u8>, JValM)> {
        seq![
            (k_frame_number(), JValM::Num(jnum_of_int(self.frame_number as int))),
            (k_group(), JValM::Num(jnum_of_nat(self.group as nat))),
        ]
    }

    pub open spec fn wf(self) -> bool {
        true
    }

    /// Reads this value out of an object's pairs, by key;
    /// unknown pairs are ignored, a missing or ill-typed field fails.
    pub open spec fn sdecode(m: Seq<(Seq<u8>, JValM)>) -> Option<FrcReadUFrameData> {
        match sget_i8(m, k_frame_number()) {
            Some(frame_number) => 
            match sget_u8(m, k_group()) {
                Some(group) => 
                Some(FrcReadUFrameData { frame_number, group }),
                None => None,
            },
            None => None,
        }
    }

    pub fn push_pairs(&self, out: &mut Vec<(Vec<u8>, JVal)>)
        ensures
            model_pairs(final(out)@, 0) == model_pairs(old(out)@, 0) + self.jpairs(),
    {
        push_field_i32(out, key_frame_number(), self.frame_number as i32);
        push_field_u32(out, key_group(), self.group as u32);
        proof {
            assert(model_pairs(out@, 0) =~= model_pairs(old(out)@, 0) + self.jpairs());
        }
    }

    pub fn from_pairs(pairs: &Vec<(Vec<u8>, JVal)>) -> (r: Option<FrcReadUFrameData>)
        ensures
            r == Self::sdecode(model_pairs(pairs@, 0)),
    {
        let frame_number = match get_i8(pairs, key_frame_number().as_slice()) {
            Some(v) => v,
            None => {
                return None;
            },
        };
        let group = match get_u8(pairs, key_group().as_slice()) {
            Some(v) => v,
            None => {
                return None;
            },
        };
        Some(FrcReadUFrameData { frame_number, group })
    }

    pub proof fn lemma_wf(self)
        ensures
            jpairs_wf(self.jpairs(), 0),
    {
        let m = self.jpairs();
        k_frame_number_ok();
        k_group_ok();
        crate::json::lemma_num_i64_round_trip(self.frame_number as int);
        crate::json::lemma_num_u64_round_trip(self.group as nat);
        assert(jval_wf(JValM::Num(jnum_of_int(self.frame_number as int))));
        assert(jval_wf(JValM::Num(jnum_of_nat(self.group as nat))));
        assert(jpairs_wf(m, 2));
        assert(jpairs_wf(m, 1));
        assert(jpairs_wf(m, 0));
    }

    /// Reading back the pairs this value prints yields it again,
    /// whatever single pair (the discriminant) stands in front.
    pub proof fn lemma_round_trip(self, front: (Seq<u8>, JValM))
        requires
            front.0 == k_tag_command(),
        ensures
            Self::sdecode(seq![front] + self.jpairs()) == Some(self),
    {
        let m = seq![front] + self.jpairs();
        // field `frame_number`
        assert(m[1].0 == k_frame_number());
        assert forall|j: int| 0 <= j < 1 implies m[j].0 != k_frame_number() by {
            if j == 0 {
                assert(k_tag_command().len() != k_frame_number().len());
            } else {
            }
        }
        lemma_slookup_at(m, k_frame_number(), 1);
        crate::json::lemma_num_i64_round_trip(self.frame_number as int);
        assert(sget_i8(m, k_frame_number()) == Some(self.frame_number));
        // field `group`
        assert(m[2].0 == k_group());
        assert forall|j: int| 0 <= j < 2 implies m[j].0 != k_group() by {
            if j == 0 {
                assert(k_tag_command().len() != k_group().len());
            } else if j == 1 {
                assert(k_frame_number().len() != k_group().len());
            } else {
            }
        }
        lemma_slookup_at(m, k_group(), 2);
        crate::json::lemma_num_u64_round_trip(self.group as nat);
        assert(sget_u8(m, k_group()) == Some(self.group));
        assert(Self::sdecode(m) == Some(self));
    }
    pub fn new(groupentered: Option<u8>, frame: i8) -> (r: FrcReadUFrameData)
        ensures
            r == (FrcReadUFrameData { frame_number: frame, group: opt_or_one(groupentered) }),
    {
        FrcReadUFrameData { frame_number: frame, group: match groupentered { Some(g) => g, None => 1 } }
    }

}

/// Response to a read-user-frame command.
#[derive(Debug, Clone, Copy, PartialEq, Eq, Structural)]
pub struct FrcReadUFrameDataResponse {
    pub error_id: u32,
    pub uframe_number: i8,
    pub group: u8,
    pub frame: FrameData,
}

impl FrcReadUFrameDataResponse {
    /// The wire pairs of this value, in declaration order.
    pub open spec fn jpairs(self) -> Seq<(Seq<u8>, JValM)> {
        seq![
            (k_error_id(), JValM::Num(jnum_of_nat(self.error_id as nat))),
            (k_uframe_number(), JValM::Num(jnum_of_int(self.uframe_number as int))),
            (k_group(), JValM::Num(jnum_of_nat(self.group as nat))),
            (k_frame(), JValM::Obj(self.frame.jpairs())),
        ]
    }

    pub open spec fn wf(self) -> bool {
        self.frame.wf()
    }

    /// Reads this value out of an object's pairs, by key;
    /// unknown pairs are ignored, a missing or ill-typed field fails.
    pub open spec fn sdecode(m: Seq<(Seq<u8>, JValM)>) -> Option<FrcReadUFrameDataResponse> {
        match sget_u32(m, k_error_id()) {
            Some(error_id) => 
            match sget_i8(m, k_uframe_number()) {
                Some(uframe_number) => 
                match sget_u8(m, k_group()) {
                    Some(group) => 
                    match sget_framedata(m, k_frame()) {
                        Some(frame) => 
                        Some(FrcReadUFrameDataResponse { error_id, uframe_number, group, frame }),
                        None => None,
                    },
                    None => None,
                },
                None => None,
            },
            None => None,
        }
    }

    pub fn push_pairs(&self, out: &mut Vec<(Vec<u8>, JVal)>)
        requires
            self.wf(),
        ensures
            model_pairs(final(out)@, 0) == model_pairs(old(out)@, 0) + self.jpairs(),
    {
        push_field_u32(out, key_error_id(), self.error_id as u32);
        push_field_i32(out, key_uframe_number(), self.uframe_number as i32);
        push_field_u32(out, key_group(), self.group as u32);
        {
            let mut sub: Vec<(Vec<u8>, JVal)> = Vec::new();
            self.frame.push_pairs(&mut sub);
            proof {
                assert(model_pairs(sub@, 0) =~= self.frame.jpairs());
            }
            push_field_obj(out, key_frame(), sub);
        }
        proof {
            assert(model_pairs(out@, 0) =~= model_pairs(old(out)@, 0) + self.jpairs());
        }
    }

    pub fn from_pairs(pairs: &Vec<(Vec<u8>, JVal)>) -> (r: Option<FrcReadUFrameDataResponse>)
        ensures
            r == Self::sdecode(model_pairs(pairs@, 0)),
    {
        let error_id = match get_u32(pairs, key_error_id().as_slice()) {
            Some(v) => v,
            None => {
                return None;
            },
        };
        let uframe_number = match get_i8(pairs, key_uframe_number().as_slice()) {
            Some(v) => v,
            None => {
                return None;
            },
        };
        let group = match get_u8(pairs, key_group().as_slice()) {
            Some(v) => v,
            None => {
                return None;
            },
        };
        let frame = match get_framedata(pairs, key_frame().as_slice()) {
            Some(v) => v,
            None => {
                return None;
            },
        };
        Some(FrcReadUFrameDataResponse { error_id, uframe_number, group, frame })
    }

    pub proof fn lemma_wf(self)
        requires
            self.wf(),
        ensures
            jpairs_wf(self.jpairs(), 0),
    {
        let m = self.jpairs();
        k_error_id_ok();
        k_uframe_number_ok();
        k_group_ok();
        k_frame_ok();
        crate::json::lemma_num_u64_round_trip(self.error_id as nat);
        crate::json::lemma_num_i64_round_trip(self.uframe_number as int);
        crate::json::lemma_num_u64_round_trip(self.group as nat);
        self.frame.lemma_wf();
        assert(jval_wf(JValM::Num(jnum_of_nat(self.error_id as nat))));
        assert(jval_wf(JValM::Num(jnum_of_int(self.uframe_number as int))));
        assert(jval_wf(JValM::Num(jnum_of_nat(self.group as nat))));
        assert(jval_wf(JValM::Obj(self.frame.jpairs())));
        assert(jpairs_wf(m, 4));
        assert(jpairs_wf(m, 3));
        assert(jpairs_wf(m, 2));
        assert(jpairs_wf(m, 1));
        assert(jpairs_wf(m, 0));
    }

    /// Reading back the pairs this value prints yields it again,
    /// whatever single pair (the discriminant) stands in front.
    pub proof fn lemma_round_trip(self, front: (Seq<u8>, JValM))
        requires
            self.wf(),
            front.0 == k_tag_command(),
        ensures
            Self::sdecode(seq![front] + self.jpairs()) == Some(self),
    {
        let m = seq![front] + self.jpairs();
        // field `error_id`
        assert(m[1].0 == k_error_id());
        assert forall|j: int| 0 <= j < 1 implies m[j].0 != k_error_id() by {
            if j == 0 {
                assert(k_tag_command()[0] != k_error_id()[0]);
            } else {
            }
        }
        lemma_slookup_at(m, k_error_id(), 1);
        crate::json::lemma_num_u64_round_trip(self.error_id as nat);
        assert(sget_u32(m, k_error_id()) == Some(self.error_id));
        // field `uframe_number`
        assert(m[2].0 == k_uframe_number());
        assert forall|j: int| 0 <= j < 2 implies m[j].0 != k_uframe_number() by {
            if j == 0 {
                assert(k_tag_command().len() != k_uframe_number().len());
            } else if j == 1 {
                assert(k_error_id().len() != k_uframe_number().len());
            } else {
            }
        }
        lemma_slookup_at(m, k_uframe_number(), 2);
        crate::json::lemma_num_i64_round_trip(self.uframe_number as int);
        assert(sget_i8(m, k_uframe_number()) == Some(self.uframe_number));
        // field `group`
        assert(m[3].0 == k_group());
        assert forall|j: int| 0 <= j < 3 implies m[j].0 != k_group() by {
            if j == 0 {
                assert(k_tag_command().len() != k_group().len());
            } else if j == 1 {
                assert(k_error_id().len() != k_group().len());
            } else if j == 2 {
                assert(k_uframe_number().len() != k_group().len());
            } else {
            }
        }
        lemma_slookup_at(m, k_group(), 3);
        crate::json::lemma_num_u64_round_trip(self.group as nat);
        assert(sget_u8(m, k_group()) == Some(self.group));
        // field `frame`
        assert(m[4].0 == k_frame());
        assert forall|j: int| 0 <= j < 4 implies m[j].0 != k_frame() by {
            if j == 0 {
                assert(k_tag_command().len() != k_frame().len());
            } else if j == 1 {
                assert(k_error_id().len() != k_frame().len());
            } else if j == 2 {
                assert(k_uframe_number().len() != k_frame().len());
            } else if j == 3 {
                assert(k_group()[0] != k_frame()[0]);
            } else {
            }
        }
        lemma_slookup_at(m, k_frame(), 4);
        self.frame.lemma_wf();
        self.frame.lemma_round_trip();
        assert(sget_framedata(m, k_frame()) == Some(self.frame));
        assert(Self::sdecode(m) == Some(self));
    }

}

/// Write a user frame's pose.
#[derive(Debug, Clone, Copy, PartialEq, Eq, Structural)]
pub struct FrcWriteUFrameData {
    pub frame_number: i8,
    pub frame: FrameData,
    pub group: u8,
}

impl FrcWriteUFrameData {
    /// The wire pairs of this value, in declaration order.
    pub open spec fn jpairs(self) -> Seq<(Seq<u8>, JValM)> {
        seq![
            (k_frame_number(), JValM::Num(jnum_of_int(self.frame_number as int))),
            (k_frame(), JValM::Obj(self.frame.jpairs())),
            (k_group(), JValM::Num(jnum_of_nat(self.group as nat))),
        ]
    }

    pub open spec fn wf(self) -> bool {
        self.frame.wf()
    }

    /// Reads this value out of an object's pairs, by key;
    /// unknown pairs are ignored, a missing or ill-typed field fails.
    pub open spec fn sdecode(m: Seq<(Seq<u8>, JValM)>) -> Option<FrcWriteUFrameData> {
        match sget_i8(m, k_frame_number()) {
            Some(frame_number) => 
            match sget_framedata(m, k_frame()) {
                Some(frame) => 
                match sget_u8(m, k_group()) {
                    Some(group) => 
                    Some(FrcWriteUFrameData { frame_number, frame, group }),
                    None => None,
                },
                None => None,
            },
            None => None,
        }
    }

    pub fn push_pairs(&self, out: &mut Vec<(Vec<u8>, JVal)>)
        requires
            self.wf(),
        ensures
            model_pairs(final(out)@, 0) == model_pairs(old(out)@, 0) + self.jpairs(),
    {
        push_field_i32(out, key_frame_number(), self.frame_number as i32);
        {
            let mut sub: Vec<(Vec<u8>, JVal)> = Vec::new();
            self.frame.push_pairs(&mut sub);
            proof {
                assert(model_pairs(sub@, 0) =~= self.frame.jpairs());
            }
            push_field_obj(out, key_frame(), sub);
        }
        push_field_u32(out, key_group(), self.group as u32);
        proof {
            assert(model_pairs(out@, 0) =~= model_pairs(old(out)@, 0) + self.jpairs());
        }
    }

    pub fn from_pairs(pairs: &Vec<(Vec<u8>, JVal)>) -> (r: Option<FrcWriteUFrameData>)
        ensures
            r == Self::sdecode(model_pairs(pairs@, 0)),
    {
        let frame_number = match get_i8(pairs, key_frame_number().as_slice()) {
            Some(v) => v,
            None => {
                return None;
            },
        };
        let frame = match get_framedata(pairs, key_frame().as_slice()) {
            Some(v) => v,
            None => {
                return None;
            },
        };
        let group = match get_u8(pairs, key_group().as_slice()) {
            Some(v) => v,
            None => {
                return None;
            },
        };
        Some(FrcWriteUFrameData { frame_number, frame, group })
    }

    pub proof fn lemma_wf(self)
        requires
            self.wf(),
        ensures
            jpairs_wf(self.jpairs(), 0),
    {
        let m = self.jpairs();
        k_frame_number_ok();
        k_frame_ok();
        k_group_ok();
        crate::json::lemma_num_i64_round_trip(self.frame_number as int);
        self.frame.lemma_wf();
        crate::json::lemma_num_u64_round_trip(self.group as nat);
        assert(jval_wf(JValM::Num(jnum_of_int(self.frame_number as int))));
        assert(jval_wf(JValM::Obj(self.frame.jpairs())));
        assert(jval_wf(JValM::Num(jnum_of_nat(self.group as nat))));
        assert(jpairs_wf(m, 3));
        assert(jpairs_wf(m, 2));
        assert(jpairs_wf(m, 1));
        assert(jpairs_wf(m, 0));
    }

    /// Reading back the pairs this value prints yields it again,
    /// whatever single pair (the discriminant) stands in front.
    pub proof fn lemma_round_trip(self, front: (Seq<u8>, JValM))
        requires
            self.wf(),
            front.0 == k_tag_command(),
        ensures
            Self::sdecode(seq![front] + self.jpairs()) == Some(self),
    {
        let m = seq![front] + self.jpairs();
        // field `frame_number`
        assert(m[1].0 == k_frame_number());
        assert forall|j: int| 0 <= j < 1 implies m[j].0 != k_frame_number() by {
            if j == 0 {
                assert(k_tag_command().len() != k_frame_number().len());
            } else {
            }
        }
        lemma_slookup_at(m, k_frame_number(), 1);
        crate::json::lemma_num_i64_round_trip(self.frame_number as int);
        assert(sget_i8(m, k_frame_number()) == Some(self.frame_number));
        // field `frame`
        assert(m[2].0 == k_frame());
        assert forall|j: int| 0 <= j < 2 implies m[j].0 != k_frame() by {
            if j == 0 {
                assert(k_tag_command().len() != k_frame().len());
            } else if j == 1 {
                assert(k_frame_number().len() != k_frame().len());
            } else {
            }
        }
        lemma_slookup_at(m, k_frame(), 2);
        self.frame.lemma_wf();
        self.frame.lemma_round_trip();
        assert(sget_framedata(m, k_frame()) == Some(self.frame));
        // field `group`
        assert(m[3].0 == k_group());
        assert forall|j: int| 0 <= j < 3 implies m[j].0 != k_group() by {
            if j == 0 {
                assert(k_tag_command().len() != k_group().len());
            } else if j == 1 {
                assert(k_frame_number().len() != k_group().len());
            } else if j == 2 {
                assert(k_frame()[0] != k_group()[0]);
            } else {
            }
        }
        lemma_slookup_at(m, k_group(), 3);
        crate::json::lemma_num_u64_round_trip(self.group as nat);
        assert(sget_u8(m, k_group()) == Some(self.group));
        assert(Self::sdecode(m) == Some(self));
    }
    pub fn new(groupentered: Option<u8>, framenum: i8, framespecs: FrameData) -> (r: FrcWriteUFrameData)
        ensures
            r == (FrcWriteUFrameData { frame_number: framenum, frame: framespecs, group: opt_or_one(groupentered) }),
    {
        FrcWriteUFrameData { frame_number: framenum, frame: framespecs, group: match groupentered { Some(g) => g, None => 1 } }
    }

}

/// Response to a write-user-frame command.
#[derive(Debug, Clone, Copy, PartialEq, Eq, Structural)]
pub struct FrcWriteUFrameDataResponse {
    pub error_id: u32,
    pub group: u8,
}

impl FrcWriteUFrameDataResponse {
    /// The wire pairs of this value, in declaration order.
    pub open spec fn jpairs(self) -> Seq<(Seq<u8>, JValM)> {
        seq![
            (k_error_id(), JValM::Num(jnum_of_nat(self.error_id as nat))),
            (k_group(), JValM::Num(jnum_of_nat(self.group as nat))),
        ]
    }

    pub open spec fn wf(self) -> bool {
        true
    }

    /// Reads this value out of an object's pairs, by key;
    /// unknown pairs are ignored, a missing or ill-typed field fails.
    pub open spec fn sdecode(m: Seq<(Seq<u8>, JValM)>) -> Option<FrcWriteUFrameDataResponse> {
        match sget_u32(m, k_error_id()) {
            Some(error_id) => 
            match sget_u8(m, k_group()) {
                Some(group) => 
                Some(FrcWriteUFrameDataResponse { error_id, group }),
                None => None,
            },
            None => None,
        }
    }

    pub fn push_pairs(&self, out: &mut Vec<(Vec<u8>, JVal)>)
        ensures
            model_pairs(final(out)@, 0) == model_pairs(old(out)@, 0) + self.jpairs(),
    {
        push_field_u32(out, key_error_id(), self.error_id as u32);
        push_field_u32(out, key_group(), self.group as u32);
        proof {
            assert(model_pairs(out@, 0) =~= model_pairs(old(out)@, 0) + self.jpairs());
        }
    }

    pub fn from_pairs(pairs: &Vec<(Vec<u8>, JVal)>) -> (r: Option<FrcWriteUFrameDataResponse>)
        ensures
            r == Self::sdecode(model_pairs(pairs@, 0)),
    {
        let error_id = match get_u32(pairs, key_error_id().as_slice()) {
            Some(v) => v,
            None => {
                return None;
            },
        };
        let group = match get_u8(pairs, key_group().as_slice()) {
            Some(v) => v,
            None => {
                return None;
            },
        };
        Some(FrcWriteUFrameDataResponse { error_id, group })
    }

    pub proof fn lemma_wf(self)
        ensures
            jpairs_wf(self.jpairs(), 0),
    {
        let m = self.jpairs();
        k_error_id_ok();
        k_group_ok();
        crate::json::lemma_num_u64_round_trip(self.error_id as nat);
        crate::json::lemma_num_u64_round_trip(self.group as nat);
        assert(jval_wf(JValM::Num(jnum_of_nat(self.error_id as nat))));
        assert(jval_wf(JValM::Num(jnum_of_nat(self.group as nat))));
        assert(jpairs_wf(m, 2));
        assert(jpairs_wf(m, 1));
        assert(jpairs_wf(m, 0));
    }

    /// Reading back the pairs this value prints yields it again,
    /// whatever single pair (the discriminant) stands in front.
    pub proof fn lemma_round_trip(self, front: (Seq<u8>, JValM))
        requires
            front.0 == k_tag_command(),
        ensures
            Self::sdecode(seq![front] + self.jpairs()) == Some(self),
    {
        let m = seq![front] + self.jpairs();
        // field `error_id`
        assert(m[1].0 == k_error_id());
        assert forall|j: int| 0 <= j < 1 implies m[j].0 != k_error_id() by {
            if j == 0 {
                assert(k_tag_command()[0] != k_error_id()[0]);
            } else {
            }
        }
        lemma_slookup_at(m, k_error_id(), 1);
        crate::json::lemma_num_u64_round_trip(self.error_id as nat);
        assert(sget_u32(m, k_error_id()) == Some(self.error_id));
        // field `group`
        assert(m[2].0 == k_group());
        assert forall|j: int| 0 <= j < 2 implies m[j].0 != k_group() by {
            if j == 0 {
                assert(k_tag_command().len() != k_group().len());
            } else if j == 1 {
                assert(k_error_id().len() != k_group().len());
            } else {
            }
        }
        lemma_slookup_at(m, k_group(), 2);
        crate::json::lemma_num_u64_round_trip(self.group as nat);
        assert(sget_u8(m, k_group()) == Some(self.group));
        assert(Self::sdecode(m) == Some(self));
    }

}

/// Read a user tool's pose.
#[derive(Debug, Clone, Copy, PartialEq, Eq, Structural)]
pub struct FrcReadUToolData {
    pub frame_number: i8,
    pub group: u8,
}

impl FrcReadUToolData {
    /// The wire pairs of this value, in declaration order.
    pub open spec fn jpairs(self) -> Seq<(Seq<u8>, JValM)> {
        seq![
            (k_frame_number(), JValM::Num(jnum_of_int(self.frame_number as int))),
            (k_group(), JValM::Num(jnum_of_nat(self.group as nat))),
        ]
    }

    pub open spec fn wf(self) -> bool {
        true
    }

    /// Reads this value out of an object's pairs, by key;
    /// unknown pairs are ignored, a missing or ill-typed field fails.
    pub open spec fn sdecode(m: Seq<(Seq<u8>, JValM)>) -> Option<FrcReadUToolData> {
        match sget_i8(m, k_frame_number()) {
            Some(frame_number) => 
            match sget_u8(m, k_group()) {
                Some(group) => 
                Some(FrcReadUToolData { frame_number, group }),
                None => None,
            },
            None => None,
        }
    }

    pub fn push_pairs(&self, out: &mut Vec<(Vec<u8>, JVal)>)
        ensures
            model_pairs(final(out)@, 0) == model_pairs(old(out)@, 0) + self.jpairs(),
    {
        push_field_i32(out, key_frame_number(), self.frame_number as i32);
        push_field_u32(out, key_group(), self.group as u32);
        proof {
            assert(model_pairs(out@, 0) =~= model_pairs(old(out)@, 0) + self.jpairs());
        }
    }

    pub fn from_pairs(pairs: &Vec<(Vec<u8>, JVal)>) -> (r: Option<FrcReadUToolData>)
        ensures
            r == Self::sdecode(model_pairs(pairs@, 0)),
    {
        let frame_number = match get_i8(pairs, key_frame_number().as_slice()) {
            Some(v) => v,
            None => {
                return None;
            },
        };
        let group = match get_u8(pairs, key_group().as_slice()) {
            Some(v) => v,
            None => {
                return None;
            },
        };
        Some(FrcReadUToolData { frame_number, group })
    }

    pub proof fn lemma_wf(self)
        ensures
            jpairs_wf(self.jpairs(), 0),
    {
        let m = self.jpairs();
        k_frame_number_ok();
        k_group_ok();
        crate::json::lemma_num_i64_round_trip(self.frame_number as int);
        crate::json::lemma_num_u64_round_trip(self.group as nat);
        assert(jval_wf(JValM::Num(jnum_of_int(self.frame_number as int))));
        assert(jval_wf(JValM::Num(jnum_of_nat(self.group as nat))));
        assert(jpairs_wf(m, 2));
        assert(jpairs_wf(m, 1));
        assert(jpairs_wf(m, 0));
    }

    /// Reading back the pairs this value prints yields it again,
    /// whatever single pair (the discriminant) stands in front.
    pub proof fn lemma_round_trip(self, front: (Seq<u8>, JValM))
        requires
            front.0 == k_tag_command(),
        ensures
            Self::sdecode(seq![front] + self.jpairs()) == Some(self),
    {
        let m = seq![front] + self.jpairs();
        // field `frame_number`
        assert(m[1].0 == k_frame_number());
        assert forall|j: int| 0 <= j < 1 implies m[j].0 != k_frame_number() by {
            if j == 0 {
                assert(k_tag_command().len() != k_frame_number().len());
            } else {
            }
        }
        lemma_slookup_at(m, k_frame_number(), 1);
        crate::json::lemma_num_i64_round_trip(self.frame_number as int);
        assert(sget_i8(m, k_frame_number()) == Some(self.frame_number));
        // field `group`
        assert(m[2].0 == k_group());
        assert forall|j: int| 0 <= j < 2 implies m[j].0 != k_group() by {
            if j == 0 {
                assert(k_tag_command().len() != k_group().len());
            } else if j == 1 {
                assert(k_frame_number().len() != k_group().len());
            } else {
            }
        }
        lemma_slookup_at(m, k_group(), 2);
        crate::json::lemma_num_u64_round_trip(self.group as nat);
        assert(sget_u8(m, k_group()) == Some(self.group));
        assert(Self::sdecode(m) == Some(self));
    }
    pub fn new(groupentered: Option<u8>, framenum: i8) -> (r: FrcReadUToolData)
        ensures
            r == (FrcReadUToolData { frame_number: framenum, group: opt_or_one(groupentered) }),
    {
        FrcReadUToolData { frame_number: framenum, group: match groupentered { Some(g) => g, None => 1 } }
    }

}

/// Response to a read-user-tool command.
#[derive(Debug, Clone, Copy, PartialEq, Eq, Structural)]
pub struct FrcReadUToolDataResponse {
    pub error_id: u32,
    pub utool_number: u8,
    pub frame: FrameData,
    pub group: u8,
}

impl FrcReadUToolDataResponse {
    /// The wire pairs of this value, in declaration order.
    pub open spec fn jpairs(self) -> Seq<(Seq<u8>, JValM)> {
        seq![
            (k_error_id(), JValM::Num(jnum_of_nat(self.error_id as nat))),
            (k_utool_number(), JValM::Num(jnum_of_nat(self.utool_number as nat))),
            (k_frame(), JValM::Obj(self.frame.jpairs())),
            (k_group(), JValM::Num(jnum_of_nat(self.group as nat))),
        ]
    }

    pub open spec fn wf(self) -> bool {
        self.frame.wf()
    }

    /// Reads this value out of an object's pairs, by key;
    /// unknown pairs are ignored, a missing or ill-typed field fails.
    pub open spec fn sdecode(m: Seq<(Seq<u8>, JValM)>) -> Option<FrcReadUToolDataResponse> {
        match sget_u32(m, k_error_id()) {
            Some(error_id) => 
            match sget_u8(m, k_utool_number()) {
                Some(utool_number) => 
                match sget_framedata(m, k_frame()) {
                    Some(frame) => 
                    match sget_u8(m, k_group()) {
                        Some(group) => 
                        Some(FrcReadUToolDataResponse { error_id, utool_number, frame, group }),
                        None => None,
                    },
                    None => None,
                },
                None => None,
            },
            None => None,
        }
    }

    pub fn push_pairs(&self, out: &mut Vec<(Vec<u8>, JVal)>)
        requires
            self.wf(),
        ensures
            model_pairs(final(out)@, 0) == model_pairs(old(out)@, 0) + self.jpairs(),
    {
        push_field_u32(out, key_error_id(), self.error_id as u32);
        push_field_u32(out, key_utool_number(), self.utool_number as u32);
        {
            let mut sub: Vec<(Vec<u8>, JVal)> = Vec::new();
            self.frame.push_pairs(&mut sub);
            proof {
                assert(model_pairs(sub@, 0) =~= self.frame.jpairs());
            }
            push_field_obj(out, key_frame(), sub);
        }
        push_field_u32(out, key_group(), self.group as u32);
        proof {
            assert(model_pairs(out@, 0) =~= model_pairs(old(out)@, 0) + self.jpairs());
        }
    }

    pub fn from_pairs(pairs: &Vec<(Vec<u8>, JVal)>) -> (r: Option<FrcReadUToolDataResponse>)
        ensures
            r == Self::sdecode(model_pairs(pairs@, 0)),
    {
        let error_id = match get_u32(pairs, key_error_id().as_slice()) {
            Some(v) => v,
            None => {
                return None;
            },
        };
        let utool_number = match get_u8(pairs, key_utool_number().as_slice()) {
            Some(v) => v,
            None => {
                return None;
            },
        };
        let frame = match get_framedata(pairs, key_frame().as_slice()) {
            Some(v) => v,
            None => {
                return None;
            },
        };
        let group = match get_u8(pairs, key_group().as_slice()) {
            Some(v) => v,
            None => {
                return None;
            },
        };
        Some(FrcReadUToolDataResponse { error_id, utool_number, frame, group })
    }

    pub proof fn lemma_wf(self)
        requires
            self.wf(),
        ensures
            jpairs_wf(self.jpairs(), 0),
    {
        let m = self.jpairs();
        k_error_id_ok();
        k_utool_number_ok();
        k_frame_ok();
        k_group_ok();
        crate::json::lemma_num_u64_round_trip(self.error_id as nat);
        crate::json::lemma_num_u64_round_trip(self.utool_number as nat);
        self.frame.lemma_wf();
        crate::json::lemma_num_u64_round_trip(self.group as nat);
        assert(jval_wf(JValM::Num(jnum_of_nat(self.error_id as nat))));
        assert(jval_wf(JValM::Num(jnum_of_nat(self.utool_number as nat))));
        assert(jval_wf(JValM::Obj(self.frame.jpairs())));
        assert(jval_wf(JValM::Num(jnum_of_nat(self.group as nat))));
        assert(jpairs_wf(m, 4));
        assert(jpairs_wf(m, 3));
        assert(jpairs_wf(m, 2));
        assert(jpairs_wf(m, 1));
        assert(jpairs_wf(m, 0));
    }

    /// Reading back the pairs this value prints yields it again,
    /// whatever single pair (the discriminant) stands in front.
    pub proof fn lemma_round_trip(self, front: (Seq<u8>, JValM))
        requires
            self.wf(),
            front.0 == k_tag_command(),
        ensures
            Self::sdecode(seq![front] + self.jpairs()) == Some(self),
    {
        let m = seq![front] + self.jpairs();
        // field `error_id`
        assert(m[1].0 == k_error_id());
        assert forall|j: int| 0 <= j < 1 implies m[j].0 != k_error_id() by {
            if j == 0 {
                assert(k_tag_command()[0] != k_error_id()[0]);
            } else {
            }
        }
        lemma_slookup_at(m, k_error_id(), 1);
        crate::json::lemma_num_u64_round_trip(self.error_id as nat);
        assert(sget_u32(m, k_error_id()) == Some(self.error_id));
        // field `utool_number`
        assert(m[2].0 == k_utool_number());
        assert forall|j: int| 0 <= j < 2 implies m[j].0 != k_utool_number() by {
            if j == 0 {
                assert(k_tag_command().len() != k_utool_number().len());
            } else if j == 1 {
                assert(k_error_id().len() != k_utool_number().len());
            } else {
            }
        }
        lemma_slookup_at(m, k_utool_number(), 2);
        crate::json::lemma_num_u64_round_trip(self.utool_number as nat);
        assert(sget_u8(m, k_utool_number()) == Some(self.utool_number));
        // field `frame`
        assert(m[3].0 == k_frame());
        assert forall|j: int| 0 <= j < 3 implies m[j].0 != k_frame() by {
            if j == 0 {
                assert(k_tag_command().len() != k_frame().len());
            } else if j == 1 {
                assert(k_error_id().len() != k_frame().len());
            } else if j == 2 {
                assert(k_utool_number().len() != k_frame().len());
            } else {
            }
        }
        lemma_slookup_at(m, k_frame(), 3);
        self.frame.lemma_wf();
        self.frame.lemma_round_trip();
        assert(sget_framedata(m, k_frame()) == Some(self.frame));
        // field `group`
        assert(m[4].0 == k_group());
        assert forall|j: int| 0 <= j < 4 implies m[j].0 != k_group() by {
            if j == 0 {
                assert(k_tag_command().len() != k_group().len());
            } else if j == 1 {
                assert(k_error_id().len() != k_group().len());
            } else if j == 2 {
                assert(k_utool_number().len() != k_group().len());
            } else if j == 3 {
                assert(k_frame()[0] != k_group()[0]);
            } else {
            }
        }
        lemma_slookup_at(m, k_group(), 4);
        crate::json::lemma_num_u64_round_trip(self.group as nat);
        assert(sget_u8(m, k_group()) == Some(self.group));
        assert(Self::sdecode(m) == Some(self));
    }

}

/// Write a user tool's pose.
#[derive(Debug, Clone, Copy, PartialEq, Eq, Structural)]
pub struct FrcWriteUToolData {
    pub tool_number: i8,
    pub frame: FrameData,
    pub group: u8,
}

impl FrcWriteUToolData {
    /// The wire pairs of this value, in declaration order.
    pub open spec fn jpairs(self) -> Seq<(Seq<u8>, JValM)> {
        seq![
            (k_tool_number(), JValM::Num(jnum_of_int(self.tool_number as int))),
            (k_frame(), JValM::Obj(self.frame.jpairs())),
            (k_group(), JValM::Num(jnum_of_nat(self.group as nat))),
        ]
    }

    pub open spec fn wf(self) -> bool {
        self.frame.wf()
    }

    /// Reads this value out of an object's pairs, by key;
    /// unknown pairs are ignored, a missing or ill-typed field fails.
    pub open spec fn sdecode(m: Seq<(Seq<u8>, JValM)>) -> Option<FrcWriteUToolData> {
        match sget_i8(m, k_tool_number()) {
            Some(tool_number) => 
            match sget_framedata(m, k_frame()) {
                Some(frame) => 
                match sget_u8(m, k_group()) {
                    Some(group) => 
                    Some(FrcWriteUToolData { tool_number, frame, group }),
                    None => None,
                },
                None => None,
            },
            None => None,
        }
    }

    pub fn push_pairs(&self, out: &mut Vec<(Vec<u8>, JVal)>)
        requires
            self.wf(),
        ensures
            model_pairs(final(out)@, 0) == model_pairs(old(out)@, 0) + self.jpairs(),
    {
        push_field_i32(out, key_tool_number(), self.tool_number as i32);
        {
            let mut sub: Vec<(Vec<u8>, JVal)> = Vec::new();
            self.frame.push_pairs(&mut sub);
            proof {
                assert(model_pairs(sub@, 0) =~= self.frame.jpairs());
            }
            push_field_obj(out, key_frame(), sub);
        }
        push_field_u32(out, key_group(), self.group as u32);
        proof {
            assert(model_pairs(out@, 0) =~= model_pairs(old(out)@, 0) + self.jpairs());
        }
    }

    pub fn from_pairs(pairs: &Vec<(Vec<u8>, JVal)>) -> (r: Option<FrcWriteUToolData>)
        ensures
            r == Self::sdecode(model_pairs(pairs@, 0)),
    {
        let tool_number = match get_i8(pairs, key_tool_number().as_slice()) {
            Some(v) => v,
            None => {
                return None;
            },
        };
        let frame = match get_framedata(pairs, key_frame().as_slice()) {
            Some(v) => v,
            None => {
                return None;
            },
        };
        let group = match get_u8(pairs, key_group().as_slice()) {
            Some(v) => v,
            None => {
                return None;
            },
        };
        Some(FrcWriteUToolData { tool_number, frame, group })
    }

    pub proof fn lemma_wf(self)
        requires
            self.wf(),
        ensures
            jpairs_wf(self.jpairs(), 0),
    {
        let m = self.jpairs();
        k_tool_number_ok();
        k_frame_ok();
        k_group_ok();
        crate::json::lemma_num_i64_round_trip(self.tool_number as int);
        self.frame.lemma_wf();
        crate::json::lemma_num_u64_round_trip(self.group as nat);
        assert(jval_wf(JValM::Num(jnum_of_int(self.tool_number as int))));
        assert(jval_wf(JValM::Obj(self.frame.jpairs())));
        assert(jval_wf(JValM::Num(jnum_of_nat(self.group as nat))));
        assert(jpairs_wf(m, 3));
        assert(jpairs_wf(m, 2));
        assert(jpairs_wf(m, 1));
        assert(jpairs_wf(m, 0));
    }

    /// Reading back the pairs this value prints yields it again,
    /// whatever single pair (the discriminant) stands in front.
    pub proof fn lemma_round_trip(self, front: (Seq<u8>, JValM))
        requires
            self.wf(),
            front.0 == k_tag_command(),
        ensures
            Self::sdecode(seq![front] + self.jpairs()) == Some(self),
    {
        let m = seq![front] + self.jpairs();
        // field `tool_number`
        assert(m[1].0 == k_tool_number());
        assert forall|j: int| 0 <= j < 1 implies m[j].0 != k_tool_number() by {
            if j == 0 {
                assert(k_tag_command().len() != k_tool_number().len());
            } else {
            }
        }
        lemma_slookup_at(m, k_tool_number(), 1);
        crate::json::lemma_num_i64_round_trip(self.tool_number as int);
        assert(sget_i8(m, k_tool_number()) == Some(self.tool_number));
        // field `frame`
        assert(m[2].0 == k_frame());
        assert forall|j: int| 0 <= j < 2 implies m[j].0 != k_frame() by {
            if j == 0 {
                assert(k_tag_command().len() != k_frame().len());
            } else if j == 1 {
                assert(k_tool_number().len() != k_frame().len());
            } else {
            }
        }
        lemma_slookup_at(m, k_frame(), 2);
        self.frame.lemma_wf();
        self.frame.lemma_round_trip();
        assert(sget_framedata(m, k_frame()) == Some(self.frame));
        // field `group`
        assert(m[3].0 == k_group());
        assert forall|j: int| 0 <= j < 3 implies m[j].0 != k_group() by {
            if j == 0 {
                assert(k_tag_command().len() != k_group().len());
            } else if j == 1 {
                assert(k_tool_number().len() != k_group().len());
            } else if j == 2 {
                assert(k_frame()[0] != k_group()[0]);
            } else {
            }
        }
        lemma_slookup_at(m, k_group(), 3);
        crate::json::lemma_num_u64_round_trip(self.group as nat);
        assert(sget_u8(m, k_group()) == Some(self.group));
        assert(Self::sdecode(m) == Some(self));
    }
    pub fn new(groupentered: Option<u8>, toolnum: i8, framespecs: FrameData) -> (r: FrcWriteUToolData)
        ensures
            r == (FrcWriteUToolData { tool_number: toolnum, frame: framespecs, group: opt_or_one(groupentered) }),
    {
        FrcWriteUToolData { tool_number: toolnum, frame: framespecs, group: match groupentered { Some(g) => g, None => 1 } }
    }

}

/// Response to a write-user-tool command.
#[derive(Debug, Clone, Copy, PartialEq, Eq, Structural)]
pub struct FrcWriteUToolDataResponse {
    pub error_id: u32,
    pub group: u8,
}

impl FrcWriteUToolDataResponse {
    /// The wire pairs of this value, in declaration order.
    pub open spec fn jpairs(self) -> Seq<(Seq<u8>, JValM)> {
        seq![
            (k_error_id(), JValM::Num(jnum_of_nat(self.error_id as nat))),
            (k_group(), JValM::Num(jnum_of_nat(self.group as nat))),
        ]
    }

    pub open spec fn wf(self) -> bool {
        true
    }

    /// Reads this value out of an object's pairs, by key;
    /// unknown pairs are ignored, a missing or ill-typed field fails.
    pub open spec fn sdecode(m: Seq<(Seq<u8>, JValM)>) -> Option<FrcWriteUToolDataResponse> {
        match sget_u32(m, k_error_id()) {
            Some(error_id) => 
            match sget_u8(m, k_group()) {
                Some(group) => 
                Some(FrcWriteUToolDataResponse { error_id, group }),
                None => None,
            },
            None => None,
        }
    }

    pub fn push_pairs(&self, out: &mut Vec<(Vec<u8>, JVal)>)
        ensures
            model_pairs(final(out)@, 0) == model_pairs(old(out)@, 0) + self.jpairs(),
    {
        push_field_u32(out, key_error_id(), self.error_id as u32);
        push_field_u32(out, key_group(), self.group as u32);
        proof {
            assert(model_pairs(out@, 0) =~= model_pairs(old(out)@, 0) + self.jpairs());
        }
    }

    pub fn from_pairs(pairs: &Vec<(Vec<u8>, JVal)>) -> (r: Option<FrcWriteUToolDataResponse>)
        ensures
            r == Self::sdecode(model_pairs(pairs@, 0)),
    {
        let error_id = match get_u32(pairs, key_error_id().as_slice()) {
            Some(v) => v,
            None => {
                return None;
            },
        };
        let group = match get_u8(pairs, key_group().as_slice()) {
            Some(v) => v,
            None => {
                return None;
            },
        };
        Some(FrcWriteUToolDataResponse { error_id, group })
    }

    pub proof fn lemma_wf(self)
        ensures
            jpairs_wf(self.jpairs(), 0),
    {
        let m = self.jpairs();
        k_error_id_ok();
        k_group_ok();
        crate::json::lemma_num_u64_round_trip(self.error_id as nat);
        crate::json::lemma_num_u64_round_trip(self.group as nat);
        assert(jval_wf(JValM::Num(jnum_of_nat(self.error_id as nat))));
        assert(jval_wf(JValM::Num(jnum_of_nat(self.group as nat))));
        assert(jpairs_wf(m, 2));
        assert(jpairs_wf(m, 1));
        assert(jpairs_wf(m, 0));
    }

    /// Reading back the pairs this value prints yields it again,
    /// whatever single pair (the discriminant) stands in front.
    pub proof fn lemma_round_trip(self, front: (Seq<u8>, JValM))
        requires
            front.0 == k_tag_command(),
        ensures
            Self::sdecode(seq![front] + self.jpairs()) == Some(self),
    {
        let m = seq![front] + self.jpairs();
        // field `error_id`
        assert(m[1].0 == k_error_id());
        assert forall|j: int| 0 <= j < 1 implies m[j].0 != k_error_id() by {
            if j == 0 {
                assert(k_tag_command()[0] != k_error_id()[0]);
            } else {
            }
        }
        lemma_slookup_at(m, k_error_id(), 1);
        crate::json::lemma_num_u64_round_trip(self.error_id as nat);
        assert(sget_u32(m, k_error_id()) == Some(self.error_id));
        // field `group`
        assert(m[2].0 == k_group());
        assert forall|j: int| 0 <= j < 2 implies m[j].0 != k_group() by {
            if j == 0 {
                assert(k_tag_command().len() != k_group().len());
            } else if j == 1 {
                assert(k_error_id().len() != k_group().len());
            } else {
            }
        }
        lemma_slookup_at(m, k_group(), 2);
        crate::json::lemma_num_u64_round_trip(self.group as nat);
        assert(sget_u8(m, k_group()) == Some(self.group));
        assert(Self::sdecode(m) == Some(self));
    }

}

/// Read a digital input port.
#[derive(Debug, Clone, Copy, PartialEq, Eq, Structural)]
pub struct FrcReadDIN {
    pub port_num: u16,
}

impl FrcReadDIN {
    /// The wire pairs of this value, in declaration order.
    pub open spec fn jpairs(self) -> Seq<(Seq<u8>, JValM)> {
        seq![
            (k_port_number(), JValM::Num(jnum_of_nat(self.port_num as nat))),
        ]
    }

    pub open spec fn wf(self) -> bool {
        true
    }

    /// Reads this value out of an object's pairs, by key;
    /// unknown pairs are ignored, a missing or ill-typed field fails.
    pub open spec fn sdecode(m: Seq<(Seq<u8>, JValM)>) -> Option<FrcReadDIN> {
        match sget_u16(m, k_port_number()) {
            Some(port_num) => 
            Some(FrcReadDIN { port_num }),
            None => None,
        }
    }

    pub fn push_pairs(&self, out: &mut Vec<(Vec<u8>, JVal)>)
        ensures
            model_pairs(final(out)@, 0) == model_pairs(old(out)@, 0) + self.jpairs(),
    {
        push_field_u32(out, key_port_number(), self.port_num as u32);
        proof {
            assert(model_pairs(out@, 0) =~= model_pairs(old(out)@, 0) + self.jpairs());
        }
    }

    pub fn from_pairs(pairs: &Vec<(Vec<u8>, JVal)>) -> (r: Option<FrcReadDIN>)
        ensures
            r == Self::sdecode(model_pairs(pairs@, 0)),
    {
        let port_num = match get_u16(pairs, key_port_number().as_slice()) {
            Some(v) => v,
            None => {
                return None;
            },
        };
        Some(FrcReadDIN { port_num })
    }

    pub proof fn lemma_wf(self)
        ensures
            jpairs_wf(self.jpairs(), 0),
    {
        let m = self.jpairs();
        k_port_number_ok();
        crate::json::lemma_num_u64_round_trip(self.port_num as nat);
        assert(jval_wf(JValM::Num(jnum_of_nat(self.port_num as nat))));
        assert(jpairs_wf(m, 1));
        assert(jpairs_wf(m, 0));
    }

    /// Reading back the pairs this value prints yields it again,
    /// whatever single pair (the discriminant) stands in front.
    pub proof fn lemma_round_trip(self, front: (Seq<u8>, JValM))
        requires
            front.0 == k_tag_command(),
        ensures
            Self::sdecode(seq![front] + self.jpairs()) == Some(self),
    {
        let m = seq![front] + self.jpairs();
        // field `port_num`
        assert(m[1].0 == k_port_number());
        assert forall|j: int| 0 <= j < 1 implies m[j].0 != k_port_number() by {
            if j == 0 {
                assert(k_tag_command().len() != k_port_number().len());
            } else {
            }
        }
        lemma_slookup_at(m, k_port_number(), 1);
        crate::json::lemma_num_u64_round_trip(self.port_num as nat);
        assert(sget_u16(m, k_port_number()) == Some(self.port_num));
        assert(Self::sdecode(m) == Some(self));
    }
    pub fn new(port: u16) -> (r: FrcReadDIN)
        ensures
            r == (FrcReadDIN { port_num: port }),
    {
        FrcReadDIN { port_num: port }
    }

}

/// Response to a read-DIN command.
#[derive(Debug, Clone, Copy, PartialEq, Eq, Structural)]
pub struct FrcReadDINResponse {
    pub error_id: u32,
    pub port_number: u16,
    pub port_value: u8,
}

impl FrcReadDINResponse {
    /// The wire pairs of this value, in declaration order.
    pub open spec fn jpairs(self) -> Seq<(Seq<u8>, JValM)> {
        seq![
            (k_error_id(), JValM::Num(jnum_of_nat(self.error_id as nat))),
            (k_port_number(), JValM::Num(jnum_of_nat(self.port_number as nat))),
            (k_port_value(), JValM::Num(jnum_of_nat(self.port_value as nat))),
        ]
    }

    pub open spec fn wf(self) -> bool {
        true
    }

    /// Reads this value out of an object's pairs, by key;
    /// unknown pairs are ignored, a missing or ill-typed field fails.
    pub open spec fn sdecode(m: Seq<(Seq<u8>, JValM)>) -> Option<FrcReadDINResponse> {
        match sget_u32(m, k_error_id()) {
            Some(error_id) => 
            match sget_u16(m, k_port_number()) {
                Some(port_number) => 
                match sget_u8(m, k_port_value()) {
                    Some(port_value) => 
                    Some(FrcReadDINResponse { error_id, port_number, port_value }),
                    None => None,
                },
                None => None,
            },
            None => None,
        }
    }

    pub fn push_pairs(&self, out: &mut Vec<(Vec<u8>, JVal)>)
        ensures
            model_pairs(final(out)@, 0) == model_pairs(old(out)@, 0) + self.jpairs(),
    {
        push_field_u32(out, key_error_id(), self.error_id as u32);
        push_field_u32(out, key_port_number(), self.port_number as u32);
        push_field_u32(out, key_port_value(), self.port_value as u32);
        proof {
            assert(model_pairs(out@, 0) =~= model_pairs(old(out)@, 0) + self.jpairs());
        }
    }

    pub fn from_pairs(pairs: &Vec<(Vec<u8>, JVal)>) -> (r: Option<FrcReadDINResponse>)
        ensures
            r == Self::sdecode(model_pairs(pairs@, 0)),
    {
        let error_id = match get_u32(pairs, key_error_id().as_slice()) {
            Some(v) => v,
            None => {
                return None;
            },
        };
        let port_number = match get_u16(pairs, key_port_number().as_slice()) {
            Some(v) => v,
            None => {
                return None;
            },
        };
        let port_value = match get_u8(pairs, key_port_value().as_slice()) {
            Some(v) => v,
            None => {
                return None;
            },
        };
        Some(FrcReadDINResponse { error_id, port_number, port_value })
    }

    pub proof fn lemma_wf(self)
        ensures
            jpairs_wf(self.jpairs(), 0),
    {
        let m = self.jpairs();
        k_error_id_ok();
        k_port_number_ok();
        k_port_value_ok();
        crate::json::lemma_num_u64_round_trip(self.error_id as nat);
        crate::json::lemma_num_u64_round_trip(self.port_number as nat);
        crate::json::lemma_num_u64_round_trip(self.port_value as nat);
        assert(jval_wf(JValM::Num(jnum_of_nat(self.error_id as nat))));
        assert(jval_wf(JValM::Num(jnum_of_nat(self.port_number as nat))));
        assert(jval_wf(JValM::Num(jnum_of_nat(self.port_value as nat))));
        assert(jpairs_wf(m, 3));
        assert(jpairs_wf(m, 2));
        assert(jpairs_wf(m, 1));
        assert(jpairs_wf(m, 0));
    }

    /// Reading back the pairs this value prints yields it again,
    /// whatever single pair (the discriminant) stands in front.
    pub proof fn lemma_round_trip(self, front: (Seq<u8>, JValM))
        requires
            front.0 == k_tag_command(),
        ensures
            Self::sdecode(seq![front] + self.jpairs()) == Some(self),
    {
        let m = seq![front] + self.jpairs();
        // field `error_id`
        assert(m[1].0 == k_error_id());
        assert forall|j: int| 0 <= j < 1 implies m[j].0 != k_error_id() by {
            if j == 0 {
                assert(k_tag_command()[0] != k_error_id()[0]);
            } else {
            }
        }
        lemma_slookup_at(m, k_error_id(), 1);
        crate::json::lemma_num_u64_round_trip(self.error_id as nat);
        assert(sget_u32(m, k_error_id()) == Some(self.error_id));
        // field `port_number`
        assert(m[2].0 == k_port_number());
        assert forall|j: int| 0 <= j < 2 implies m[j].0 != k_port_number() by {
            if j == 0 {
                assert(k_tag_command().len() != k_port_number().len());
            } else if j == 1 {
                assert(k_error_id().len() != k_port_number().len());
            } else {
            }
        }
        lemma_slookup_at(m, k_port_number(), 2);
        crate::json::lemma_num_u64_round_trip(self.port_number as nat);
        assert(sget_u16(m, k_port_number()) == Some(self.port_number));
        // field `port_value`
        assert(m[3].0 == k_port_value());
        assert forall|j: int| 0 <= j < 3 implies m[j].0 != k_port_value() by {
            if j == 0 {
                assert(k_tag_command().len() != k_port_value().len());
            } else if j == 1 {
                assert(k_error_id().len() != k_port_value().len());
            } else if j == 2 {
                assert(k_port_number().len() != k_port_value().len());
            } else {
            }
        }
        lemma_slookup_at(m, k_port_value(), 3);
        crate::json::lemma_num_u64_round_trip(self.port_value as nat);
        assert(sget_u8(m, k_port_value()) == Some(self.port_value));
        assert(Self::sdecode(m) == Some(self));
    }

}

/// Write a digital output port.
#[derive(Debug, Clone, Copy, PartialEq, Eq, Structural)]
pub struct FrcWriteDOUT {
    pub port_number: u16,
    pub port_value: u8,
}

impl FrcWriteDOUT {
    /// The wire pairs of this value, in declaration order.
    pub open spec fn jpairs(self) -> Seq<(Seq<u8>, JValM)> {
        seq![
            (k_port_number(), JValM::Num(jnum_of_nat(self.port_number as nat))),
            (k_port_value(), JValM::Num(jnum_of_nat(self.port_value as nat))),
        ]
    }

    pub open spec fn wf(self) -> bool {
        true
    }

    /// Reads this value out of an object's pairs, by key;
    /// unknown pairs are ignored, a missing or ill-typed field fails.
    pub open spec fn sdecode(m: Seq<(Seq<u8>, JValM)>) -> Option<FrcWriteDOUT> {
        match sget_u16(m, k_port_number()) {
            Some(port_number) => 
            match sget_u8(m, k_port_value()) {
                Some(port_value) => 
                Some(FrcWriteDOUT { port_number, port_value }),
                None => None,
            },
            None => None,
        }
    }

    pub fn push_pairs(&self, out: &mut Vec<(Vec<u8>, JVal)>)
        ensures
            model_pairs(final(out)@, 0) == model_pairs(old(out)@, 0) + self.jpairs(),
    {
        push_field_u32(out, key_port_number(), self.port_number as u32);
        push_field_u32(out, key_port_value(), self.port_value as u32);
        proof {
            assert(model_pairs(out@, 0) =~= model_pairs(old(out)@, 0) + self.jpairs());
        }
    }

    pub fn from_pairs(pairs: &Vec<(Vec<u8>, JVal)>) -> (r: Option<FrcWriteDOUT>)
        ensures
            r == Self::sdecode(model_pairs(pairs@, 0)),
    {
        let port_number = match get_u16(pairs, key_port_number().as_slice()) {
            Some(v) => v,
            None => {
                return None;
            },
        };
        let port_value = match get_u8(pairs, key_port_value().as_slice()) {
            Some(v) => v,
            None => {
                return None;
            },
        };
        Some(FrcWriteDOUT { port_number, port_value })
    }

    pub proof fn lemma_wf(self)
        ensures
            jpairs_wf(self.jpairs(), 0),
    {
        let m = self.jpairs();
        k_port_number_ok();
        k_port_value_ok();
        crate::json::lemma_num_u64_round_trip(self.port_number as nat);
        crate::json::lemma_num_u64_round_trip(self.port_value as nat);
        assert(jval_wf(JValM::Num(jnum_of_nat(self.port_number as nat))));
        assert(jval_wf(JValM::Num(jnum_of_nat(self.port_value as nat))));
        assert(jpairs_wf(m, 2));
        assert(jpairs_wf(m, 1));
        assert(jpairs_wf(m, 0));
    }

    /// Reading back the pairs this value prints yields it again,
    /// whatever single pair (the discriminant) stands in front.
    pub proof fn lemma_round_trip(self, front: (Seq<u8>, JValM))
        requires
            front.0 == k_tag_command(),
        ensures
            Self::sdecode(seq![front] + self.jpairs()) == Some(self),
    {
        let m = seq![front] + self.jpairs();
        // field `port_number`
        assert(m[1].0 == k_port_number());
        assert forall|j: int| 0 <= j < 1 implies m[j].0 != k_port_number() by {
            if j == 0 {
                assert(k_tag_command().len() != k_port_number().len());
            } else {
            }
        }
        lemma_slookup_at(m, k_port_number(), 1);
        crate::json::lemma_num_u64_round_trip(self.port_number as nat);
        assert(sget_u16(m, k_port_number()) == Some(self.port_number));
        // field `port_value`
        assert(m[2].0 == k_port_value());
        assert forall|j: int| 0 <= j < 2 implies m[j].0 != k_port_value() by {
            if j == 0 {
                assert(k_tag_command().len() != k_port_value().len());
            } else if j == 1 {
                assert(k_port_number().len() != k_port_value().len());
            } else {
            }
        }
        lemma_slookup_at(m, k_port_value(), 2);
        crate::json::lemma_num_u64_round_trip(self.port_value as nat);
        assert(sget_u8(m, k_port_value()) == Some(self.port_value));
        assert(Self::sdecode(m) == Some(self));
    }
    pub fn new(port_num: u16, port_val: u8) -> (r: FrcWriteDOUT)
        ensures
            r == (FrcWriteDOUT { port_number: port_num, port_value: port_val }),
    {
        FrcWriteDOUT { port_number: port_num, port_value: port_val }
    }

}

/// Response to a write-DOUT command.
#[derive(Debug, Clone, Copy, PartialEq, Eq, Structural)]
pub struct FrcWriteDOUTResponse {
    pub error_id: u32,
}

impl FrcWriteDOUTResponse {
    /// The wire pairs of this value, in declaration order.
    pub open spec fn jpairs(self) -> Seq<(Seq<u8>, JValM)> {
        seq![
            (k_error_id(), JValM::Num(jnum_of_nat(self.error_id as nat))),
        ]
    }

    pub open spec fn wf(self) -> bool {
        true
    }

    /// Reads this value out of an object's pairs, by key;
    /// unknown pairs are ignored, a missing or ill-typed field fails.
    pub open spec fn sdecode(m: Seq<(Seq<u8>, JValM)>) -> Option<FrcWriteDOUTResponse> {
        match sget_u32(m, k_error_id()) {
            Some(error_id) => 
            Some(FrcWriteDOUTResponse { error_id }),
            None => None,
        }
    }

    pub fn push_pairs(&self, out: &mut Vec<(Vec<u8>, JVal)>)
        ensures
            model_pairs(final(out)@, 0) == model_pairs(old(out)@, 0) + self.jpairs(),
    {
        push_field_u32(out, key_error_id(), self.error_id as u32);
        proof {
            assert(model_pairs(out@, 0) =~= model_pairs(old(out)@, 0) + self.jpairs());
        }
    }

    pub fn from_pairs(pairs: &Vec<(Vec<u8>, JVal)>) -> (r: Option<FrcWriteDOUTResponse>)
        ensures
            r == Self::sdecode(model_pairs(pairs@, 0)),
    {
        let error_id = match get_u32(pairs, key_error_id().as_slice()) {
            Some(v) => v,
            None => {
                return None;
            },
        };
        Some(FrcWriteDOUTResponse { error_id })
    }

    pub proof fn lemma_wf(self)
        ensures
            jpairs_wf(self.jpairs(), 0),
    {
        let m = self.jpairs();
        k_error_id_ok();
        crate::json::lemma_num_u64_round_trip(self.error_id as nat);
        assert(jval_wf(JValM::Num(jnum_of_nat(self.error_id as nat))));
        assert(jpairs_wf(m, 1));
        assert(jpairs_wf(m, 0));
    }

    /// Reading back the pairs this value prints yields it again,
    /// whatever single pair (the discriminant) stands in front.
    pub proof fn lemma_round_trip(self, front: (Seq<u8>, JValM))
        requires
            front.0 == k_tag_command(),
        ensures
            Self::sdecode(seq![front] + self.jpairs()) == Some(self),
    {
        let m = seq![front] + self.jpairs();
        // field `error_id`
        assert(m[1].0 == k_error_id());
        assert forall|j: int| 0 <= j < 1 implies m[j].0 != k_error_id() by {
            if j == 0 {
                assert(k_tag_command()[0] != k_error_id()[0]);
            } else {
            }
        }
        lemma_slookup_at(m, k_error_id(), 1);
        crate::json::lemma_num_u64_round_trip(self.error_id as nat);
        assert(sget_u32(m, k_error_id()) == Some(self.error_id));
        assert(Self::sdecode(m) == Some(self));
    }

}

/// Read the current cartesian position.
#[derive(Debug, Clone, Copy, PartialEq, Eq, Structural)]
pub struct FrcReadCartesianPosition {
    pub group: u8,
}

impl FrcReadCartesianPosition {
    /// The wire pairs of this value, in declaration order.
    pub open spec fn jpairs(self) -> Seq<(Seq<u8>, JValM)> {
        seq![
            (k_group(), JValM::Num(jnum_of_nat(self.group as nat))),
        ]
    }

    pub open spec fn wf(self) -> bool {
        true
    }

    /// Reads this value out of an object's pairs, by key;
    /// unknown pairs are ignored, a missing or ill-typed field fails.
    pub open spec fn sdecode(m: Seq<(Seq<u8>, JValM)>) -> Option<FrcReadCartesianPosition> {
        match sget_u8(m, k_group()) {
            Some(group) => 
            Some(FrcReadCartesianPosition { group }),
            None => None,
        }
    }

    pub fn push_pairs(&self, out: &mut Vec<(Vec<u8>, JVal)>)
        ensures
            model_pairs(final(out)@, 0) == model_pairs(old(out)@, 0) + self.jpairs(),
    {
        push_field_u32(out, key_group(), self.group as u32);
        proof {
            assert(model_pairs(out@, 0) =~= model_pairs(old(out)@, 0) + self.jpairs());
        }
    }

    pub fn from_pairs(pairs: &Vec<(Vec<u8>, JVal)>) -> (r: Option<FrcReadCartesianPosition>)
        ensures
            r == Self::sdecode(model_pairs(pairs@, 0)),
    {
        let group = match get_u8(pairs, key_group().as_slice()) {
            Some(v) => v,
            None => {
                return None;
            },
        };
        Some(FrcReadCartesianPosition { group })
    }

    pub proof fn lemma_wf(self)
        ensures
            jpairs_wf(self.jpairs(), 0),
    {
        let m = self.jpairs();
        k_group_ok();
        crate::json::lemma_num_u64_round_trip(self.group as nat);
        assert(jval_wf(JValM::Num(jnum_of_nat(self.group as nat))));
        assert(jpairs_wf(m, 1));
        assert(jpairs_wf(m, 0));
    }

    /// Reading back the pairs this value prints yields it again,
    /// whatever single pair (the discriminant) stands in front.
    pub proof fn lemma_round_trip(self, front: (Seq<u8>, JValM))
        requires
            front.0 == k_tag_command(),
        ensures
            Self::sdecode(seq![front] + self.jpairs()) == Some(self),
    {
        let m = seq![front] + self.jpairs();
        // field `group`
        assert(m[1].0 == k_group());
        assert forall|j: int| 0 <= j < 1 implies m[j].0 != k_group() by {
            if j == 0 {
                assert(k_tag_command().len() != k_group().len());
            } else {
            }
        }
        lemma_slookup_at(m, k_group(), 1);
        crate::json::lemma_num_u64_round_trip(self.group as nat);
        assert(sget_u8(m, k_group()) == Some(self.group));
        assert(Self::sdecode(m) == Some(self));
    }
    pub fn new(groupentered: Option<u8>) -> (r: FrcReadCartesianPosition)
        ensures
            r == (FrcReadCartesianPosition { group: opt_or_one(groupentered) }),
    {
        FrcReadCartesianPosition { group: match groupentered { Some(g) => g, None => 1 } }
    }

}

/// Response to a read-cartesian-position command.
#[derive(Debug, Clone, Copy, PartialEq, Eq, Structural)]
pub struct FrcReadCartesianPositionResponse {
    pub error_id: u32,
    pub time_tag: u32,
    pub config: Configuration,
    pub pos: Position,
    pub group: u8,
}

impl FrcReadCartesianPositionResponse {
    /// The wire pairs of this value, in declaration order.
    pub open spec fn jpairs(self) -> Seq<(Seq<u8>, JValM)> {
        seq![
            (k_error_id(), JValM::Num(jnum_of_nat(self.error_id as nat))),
            (k_time_tag(), JValM::Num(jnum_of_nat(self.time_tag as nat))),
            (k_configuration(), JValM::Obj(self.config.jpairs())),
            (k_position(), JValM::Obj(self.pos.jpairs())),
            (k_group(), JValM::Num(jnum_of_nat(self.group as nat))),
        ]
    }

    pub open spec fn wf(self) -> bool {
        self.config.wf() && self.pos.wf()
    }

    /// Reads this value out of an object's pairs, by key;
    /// unknown pairs are ignored, a missing or ill-typed field fails.
    pub open spec fn sdecode(m: Seq<(Seq<u8>, JValM)>) -> Option<FrcReadCartesianPositionResponse> {
        match sget_u32(m, k_error_id()) {
            Some(error_id) => 
            match sget_u32(m, k_time_tag()) {
                Some(time_tag) => 
                match sget_config(m, k_configuration()) {
                    Some(config) => 
                    match sget_pos(m, k_position()) {
                        Some(pos) => 
                        match sget_u8(m, k_group()) {
                            Some(group) => 
                            Some(FrcReadCartesianPositionResponse { error_id, time_tag, config, pos, group }),
                            None => None,
                        },
                        None => None,
                    },
                    None => None,
                },
                None => None,
            },
            None => None,
        }
    }

    #[verifier::rlimit(60)]
    pub fn push_pairs(&self, out: &mut Vec<(Vec<u8>, JVal)>)
        requires
            self.wf(),
        ensures
            model_pairs(final(out)@, 0) == model_pairs(old(out)@, 0) + self.jpairs(),
    {
        push_field_u32(out, key_error_id(), self.error_id as u32);
        push_field_u32(out, key_time_tag(), self.time_tag as u32);
        {
            let mut sub: Vec<(Vec<u8>, JVal)> = Vec::new();
            self.config.push_pairs(&mut sub);
            proof {
                assert(model_pairs(sub@, 0) =~= self.config.jpairs());
            }
            push_field_obj(out, key_configuration(), sub);
        }
        {
            let mut sub: Vec<(Vec<u8>, JVal)> = Vec::new();
            self.pos.push_pairs(&mut sub);
            proof {
                assert(model_pairs(sub@, 0) =~= self.pos.jpairs());
            }
            push_field_obj(out, key_position(), sub);
        }
        push_field_u32(out, key_group(), self.group as u32);
        proof {
            assert(model_pairs(out@, 0) =~= model_pairs(old(out)@, 0) + self.jpairs());
        }
    }

    pub fn from_pairs(pairs: &Vec<(Vec<u8>, JVal)>) -> (r: Option<FrcReadCartesianPositionResponse>)
        ensures
            r == Self::sdecode(model_pairs(pairs@, 0)),
    {
        let error_id = match get_u32(pairs, key_error_id().as_slice()) {
            Some(v) => v,
            None => {
                return None;
            },
        };
        let time_tag = match get_u32(pairs, key_time_tag().as_slice()) {
            Some(v) => v,
            None => {
                return None;
            },
        };
        let config = match get_config(pairs, key_configuration().as_slice()) {
            Some(v) => v,
            None => {
                return None;
            },
        };
        let pos = match get_pos(pairs, key_position().as_slice()) {
            Some(v) => v,
            None => {
                return None;
            },
        };
        let group = match get_u8(pairs, key_group().as_slice()) {
            Some(v) => v,
            None => {
                return None;
            },
        };
        Some(FrcReadCartesianPositionResponse { error_id, time_tag, config, pos, group })
    }

    pub proof fn lemma_wf(self)
        requires
            self.wf(),
        ensures
            jpairs_wf(self.jpairs(), 0),
    {
        let m = self.jpairs();
        k_error_id_ok();
        k_time_tag_ok();
        k_configuration_ok();
        k_position_ok();
        k_group_ok();
        crate::json::lemma_num_u64_round_trip(self.error_id as nat);
        crate::json::lemma_num_u64_round_trip(self.time_tag as nat);
        self.config.lemma_wf();
        self.pos.lemma_wf();
        crate::json::lemma_num_u64_round_trip(self.group as nat);
        assert(jval_wf(JValM::Num(jnum_of_nat(self.error_id as nat))));
        assert(jval_wf(JValM::Num(jnum_of_nat(self.time_tag as nat))));
        assert(jval_wf(JValM::Obj(self.config.jpairs())));
        assert(jval_wf(JValM::Obj(self.pos.jpairs())));
        assert(jval_wf(JValM::Num(jnum_of_nat(self.group as nat))));
        assert(jpairs_wf(m, 5));
        assert(jpairs_wf(m, 4));
        assert(jpairs_wf(m, 3));
        assert(jpairs_wf(m, 2));
        assert(jpairs_wf(m, 1));
        assert(jpairs_wf(m, 0));
    }

    /// Reading back the pairs this value prints yields it again,
    /// whatever single pair (the discriminant) stands in front.
    pub proof fn lemma_round_trip(self, front: (Seq<u8>, JValM))
        requires
            self.wf(),
            front.0 == k_tag_command(),
        ensures
            Self::sdecode(seq![front] + self.jpairs()) == Some(self),
    {
        let m = seq![front] + self.jpairs();
        // field `error_id`
        assert(m[1].0 == k_error_id());
        assert forall|j: int| 0 <= j < 1 implies m[j].0 != k_error_id() by {
            if j == 0 {
                assert(k_tag_command()[0] != k_error_id()[0]);
            } else {
            }
        }
        lemma_slookup_at(m, k_error_id(), 1);
        crate::json::lemma_num_u64_round_trip(self.error_id as nat);
        assert(sget_u32(m, k_error_id()) == Some(self.error_id));
        // field `time_tag`
        assert(m[2].0 == k_time_tag());
        assert forall|j: int| 0 <= j < 2 implies m[j].0 != k_time_tag() by {
            if j == 0 {
                assert(k_tag_command()[0] != k_time_tag()[0]);
            } else if j == 1 {
                assert(k_error_id()[0] != k_time_tag()[0]);
            } else {
            }
        }
        lemma_slookup_at(m, k_time_tag(), 2);
        crate::json::lemma_num_u64_round_trip(self.time_tag as nat);
        assert(sget_u32(m, k_time_tag()) == Some(self.time_tag));
        // field `config`
        assert(m[3].0 == k_configuration());
        assert forall|j: int| 0 <= j < 3 implies m[j].0 != k_configuration() by {
            if j == 0 {
                assert(k_tag_command().len() != k_configuration().len());
            } else if j == 1 {
                assert(k_error_id().len() != k_configuration().len());
            } else if j == 2 {
                assert(k_time_tag().len() != k_configuration().len());
            } else {
            }
        }
        lemma_slookup_at(m, k_configuration(), 3);
        self.config.lemma_wf();
        self.config.lemma_round_trip();
        assert(sget_config(m, k_configuration()) == Some(self.config));
        // field `pos`
        assert(m[4].0 == k_position());
        assert forall|j: int| 0 <= j < 4 implies m[j].0 != k_position() by {
            if j == 0 {
                assert(k_tag_command().len() != k_position().len());
            } else if j == 1 {
                assert(k_error_id().len() != k_position().len());
            } else if j == 2 {
                assert(k_time_tag().len() != k_position().len());
            } else if j == 3 {
                assert(k_configuration().len() != k_position().len());
            } else {
            }
        }
        lemma_slookup_at(m, k_position(), 4);
        self.pos.lemma_wf();
        self.pos.lemma_round_trip();
        assert(sget_pos(m, k_position()) == Some(self.pos));
        // field `group`
        assert(m[5].0 == k_group());
        assert forall|j: int| 0 <= j < 5 implies m[j].0 != k_group() by {
            if j == 0 {
                assert(k_tag_command().len() != k_group().len());
            } else if j == 1 {
                assert(k_error_id().len() != k_group().len());
            } else if j == 2 {
                assert(k_time_tag().len() != k_group().len());
            } else if j == 3 {
                assert(k_configuration().len() != k_group().len());
            } else if j == 4 {
                assert(k_position().len() != k_group().len());
            } else {
            }
        }
        lemma_slookup_at(m, k_group(), 5);
        crate::json::lemma_num_u64_round_trip(self.group as nat);
        assert(sget_u8(m, k_group()) == Some(self.group));
        assert(Self::sdecode(m) == Some(self));
    }

}

/// Read the current joint angles.
#[derive(Debug, Clone, Copy, PartialEq, Eq, Structural)]
pub struct FrcReadJointAngles {
    pub group: u8,
}

impl FrcReadJointAngles {
    /// The wire pairs of this value, in declaration order.
    pub open spec fn jpairs(self) -> Seq<(Seq<u8>, JValM)> {
        seq![
            (k_group(), JValM::Num(jnum_of_nat(self.group as nat))),
        ]
    }

    pub open spec fn wf(self) -> bool {
        true
    }

    /// Reads this value out of an object's pairs, by key;
    /// unknown pairs are ignored, a missing or ill-typed field fails.
    pub open spec fn sdecode(m: Seq<(Seq<u8>, JValM)>) -> Option<FrcReadJointAngles> {
        match sget_u8(m, k_group()) {
            Some(group) => 
            Some(FrcReadJointAngles { group }),
            None => None,
        }
    }

    pub fn push_pairs(&self, out: &mut Vec<(Vec<u8>, JVal)>)
        ensures
            model_pairs(final(out)@, 0) == model_pairs(old(out)@, 0) + self.jpairs(),
    {
        push_field_u32(out, key_group(), self.group as u32);
        proof {
            assert(model_pairs(out@, 0) =~= model_pairs(old(out)@, 0) + self.jpairs());
        }
    }

    pub fn from_pairs(pairs: &Vec<(Vec<u8>, JVal)>) -> (r: Option<FrcReadJointAngles>)
        ensures
            r == Self::sdecode(model_pairs(pairs@, 0)),
    {
        let group = match get_u8(pairs, key_group().as_slice()) {
            Some(v) => v,
            None => {
                return None;
            },
        };
        Some(FrcReadJointAngles { group })
    }

    pub proof fn lemma_wf(self)
        ensures
            jpairs_wf(self.jpairs(), 0),
    {
        let m = self.jpairs();
        k_group_ok();
        crate::json::lemma_num_u64_round_trip(self.group as nat);
        assert(jval_wf(JValM::Num(jnum_of_nat(self.group as nat))));
        assert(jpairs_wf(m, 1));
        assert(jpairs_wf(m, 0));
    }

    /// Reading back the pairs this value prints yields it again,
    /// whatever single pair (the discriminant) stands in front.
    pub proof fn lemma_round_trip(self, front: (Seq<u8>, JValM))
        requires
            front.0 == k_tag_command(),
        ensures
            Self::sdecode(seq![front] + self.jpairs()) == Some(self),
    {
        let m = seq![front] + self.jpairs();
        // field `group`
        assert(m[1].0 == k_group());
        assert forall|j: int| 0 <= j < 1 implies m[j].0 != k_group() by {
            if j == 0 {
                assert(k_tag_command().len() != k_group().len());
            } else {
            }
        }
        lemma_slookup_at(m, k_group(), 1);
        crate::json::lemma_num_u64_round_trip(self.group as nat);
        assert(sget_u8(m, k_group()) == Some(self.group));
        assert(Self::sdecode(m) == Some(self));
    }
    pub fn new(groupentered: Option<u8>) -> (r: FrcReadJointAngles)
        ensures
            r == (FrcReadJointAngles { group: opt_or_one(groupentered) }),
    {
        FrcReadJointAngles { group: match groupentered { Some(g) => g, None => 1 } }
    }

}

/// Response to a read-joint-angles command.
#[derive(Debug, Clone, Copy, PartialEq, Eq, Structural)]
pub struct FrcReadJointAnglesResponse {
    pub error_id: u32,
    pub time_tag: i16,
    pub joint_angles: JointAngles,
    pub group: u8,
}

impl FrcReadJointAnglesResponse {
    /// The wire pairs of this value, in declaration order.
    pub open spec fn jpairs(self) -> Seq<(Seq<u8>, JValM)> {
        seq![
            (k_error_id(), JValM::Num(jnum_of_nat(self.error_id as nat))),
            (k_time_tag(), JValM::Num(jnum_of_int(self.time_tag as int))),
            (k_joint_angles(), JValM::Obj(self.joint_angles.jpairs())),
            (k_group(), JValM::Num(jnum_of_nat(self.group as nat))),
        ]
    }

    pub open spec fn wf(self) -> bool {
        self.joint_angles.wf()
    }

    /// Reads this value out of an object's pairs, by key;
    /// unknown pairs are ignored, a missing or ill-typed field fails.
    pub open spec fn sdecode(m: Seq<(Seq<u8>, JValM)>) -> Option<FrcReadJointAnglesResponse> {
        match sget_u32(m, k_error_id()) {
            Some(error_id) => 
            match sget_i16(m, k_time_tag()) {
                Some(time_tag) => 
                match sget_joints(m, k_joint_angles()) {
                    Some(joint_angles) => 
                    match sget_u8(m, k_group()) {
                        Some(group) => 
                        Some(FrcReadJointAnglesResponse { error_id, time_tag, joint_angles, group }),
                        None => None,
                    },
                    None => None,
                },
                None => None,
            },
            None => None,
        }
    }

    pub fn push_pairs(&self, out: &mut Vec<(Vec<u8>, JVal)>)
        requires
            self.wf(),
        ensures
            model_pairs(final(out)@, 0) == model_pairs(old(out)@, 0) + self.jpairs(),
    {
        push_field_u32(out, key_error_id(), self.error_id as u32);
        push_field_i32(out, key_time_tag(), self.time_tag as i32);
        {
            let mut sub: Vec<(Vec<u8>, JVal)> = Vec::new();
            self.joint_angles.push_pairs(&mut sub);
            proof {
                assert(model_pairs(sub@, 0) =~= self.joint_angles.jpairs());
            }
            push_field_obj(out, key_joint_angles(), sub);
        }
        push_field_u32(out, key_group(), self.group as u32);
        proof {
            assert(model_pairs(out@, 0) =~= model_pairs(old(out)@, 0) + self.jpairs());
        }
    }

    pub fn from_pairs(pairs: &Vec<(Vec<u8>, JVal)>) -> (r: Option<FrcReadJointAnglesResponse>)
        ensures
            r == Self::sdecode(model_pairs(pairs@, 0)),
    {
        let error_id = match get_u32(pairs, key_error_id().as_slice()) {
            Some(v) => v,
            None => {
                return None;
            },
        };
        let time_tag = match get_i16(pairs, key_time_tag().as_slice()) {
            Some(v) => v,
            None => {
                return None;
            },
        };
        let joint_angles = match get_joints(pairs, key_joint_angles().as_slice()) {
            Some(v) => v,
            None => {
                return None;
            },
        };
        let group = match get_u8(pairs, key_group().as_slice()) {
            Some(v) => v,
            None => {
                return None;
            },
        };
        Some(FrcReadJointAnglesResponse { error_id, time_tag, joint_angles, group })
    }

    pub proof fn lemma_wf(self)
        requires
            self.wf(),
        ensures
            jpairs_wf(self.jpairs(), 0),
    {
        let m = self.jpairs();
        k_error_id_ok();
        k_time_tag_ok();
        k_joint_angles_ok();
        k_group_ok();
        crate::json::lemma_num_u64_round_trip(self.error_id as nat);
        crate::json::lemma_num_i64_round_trip(self.time_tag as int);
        self.joint_angles.lemma_wf();
        crate::json::lemma_num_u64_round_trip(self.group as nat);
        assert(jval_wf(JValM::Num(jnum_of_nat(self.error_id as nat))));
        assert(jval_wf(JValM::Num(jnum_of_int(self.time_tag as int))));
        assert(jval_wf(JValM::Obj(self.joint_angles.jpairs())));
        assert(jval_wf(JValM::Num(jnum_of_nat(self.group as nat))));
        assert(jpairs_wf(m, 4));
        assert(jpairs_wf(m, 3));
        assert(jpairs_wf(m, 2));
        assert(jpairs_wf(m, 1));
        assert(jpairs_wf(m, 0));
    }

    /// Reading back the pairs this value prints yields it again,
    /// whatever single pair (the discriminant) stands in front.
    pub proof fn lemma_round_trip(self, front: (Seq<u8>, JValM))
        requires
            self.wf(),
            front.0 == k_tag_command(),
        ensures
            Self::sdecode(seq![front] + self.jpairs()) == Some(self),
    {
        let m = seq![front] + self.jpairs();
        // field `error_id`
        assert(m[1].0 == k_error_id());
        assert forall|j: int| 0 <= j < 1 implies m[j].0 != k_error_id() by {
            if j == 0 {
                assert(k_tag_command()[0] != k_error_id()[0]);
            } else {
            }
        }
        lemma_slookup_at(m, k_error_id(), 1);
        crate::json::lemma_num_u64_round_trip(self.error_id as nat);
        assert(sget_u32(m, k_error_id()) == Some(self.error_id));
        // field `time_tag`
        assert(m[2].0 == k_time_tag());
        assert forall|j: int| 0 <= j < 2 implies m[j].0 != k_time_tag() by {
            if j == 0 {
                assert(k_tag_command()[0] != k_time_tag()[0]);
            } else if j == 1 {
                assert(k_error_id()[0] != k_time_tag()[0]);
            } else {
            }
        }
        lemma_slookup_at(m, k_time_tag(), 2);
        crate::json::lemma_num_i64_round_trip(self.time_tag as int);
        assert(sget_i16(m, k_time_tag()) == Some(self.time_tag));
        // field `joint_angles`
        assert(m[3].0 == k_joint_angles());
        assert forall|j: int| 0 <= j < 3 implies m[j].0 != k_joint_angles() by {
            if j == 0 {
                assert(k_tag_command().len() != k_joint_angles().len());
            } else if j == 1 {
                assert(k_error_id().len() != k_joint_angles().len());
            } else if j == 2 {
                assert(k_time_tag().len() != k_joint_angles().len());
            } else {
            }
        }
        lemma_slookup_at(m, k_joint_angles(), 3);
        self.joint_angles.lemma_wf();
        self.joint_angles.lemma_round_trip();
        assert(sget_joints(m, k_joint_angles()) == Some(self.joint_angles));
        // field `group`
        assert(m[4].0 == k_group());
        assert forall|j: int| 0 <= j < 4 implies m[j].0 != k_group() by {
            if j == 0 {
                assert(k_tag_command().len() != k_group().len());
            } else if j == 1 {
                assert(k_error_id().len() != k_group().len());
            } else if j == 2 {
                assert(k_time_tag().len() != k_group().len());
            } else if j == 3 {
                assert(k_joint_angles().len() != k_group().len());
            } else {
            }
        }
        lemma_slookup_at(m, k_group(), 4);
        crate::json::lemma_num_u64_round_trip(self.group as nat);
        assert(sget_u8(m, k_group()) == Some(self.group));
        assert(Self::sdecode(m) == Some(self));
    }

}

/// Set the speed override percentage.
#[derive(Debug, Clone, Copy, PartialEq, Eq, Structural)]
pub struct FrcSetOverride {
    pub value: u8,
}

impl FrcSetOverride {
    /// The wire pairs of this value, in declaration order.
    pub open spec fn jpairs(self) -> Seq<(Seq<u8>, JValM)> {
        seq![
            (k_value(), JValM::Num(jnum_of_nat(self.value as nat))),
        ]
    }

    pub open spec fn wf(self) -> bool {
        true
    }

    /// Reads this value out of an object's pairs, by key;
    /// unknown pairs are ignored, a missing or ill-typed field fails.
    pub open spec fn sdecode(m: Seq<(Seq<u8>, JValM)>) -> Option<FrcSetOverride> {
        match sget_u8(m, k_value()) {
            Some(value) => 
            Some(FrcSetOverride { value }),
            None => None,
        }
    }

    pub fn push_pairs(&self, out: &mut Vec<(Vec<u8>, JVal)>)
        ensures
            model_pairs(final(out)@, 0) == model_pairs(old(out)@, 0) + self.jpairs(),
    {
        push_field_u32(out, key_value(), self.value as u32);
        proof {
            assert(model_pairs(out@, 0) =~= model_pairs(old(out)@, 0) + self.jpairs());
        }
    }

    pub fn from_pairs(pairs: &Vec<(Vec<u8>, JVal)>) -> (r: Option<FrcSetOverride>)
        ensures
            r == Self::sdecode(model_pairs(pairs@, 0)),
    {
        let value = match get_u8(pairs, key_value().as_slice()) {
            Some(v) => v,
            None => {
                return None;
            },
        };
        Some(FrcSetOverride { value })
    }

    pub proof fn lemma_wf(self)
        ensures
            jpairs_wf(self.jpairs(), 0),
    {
        let m = self.jpairs();
        k_value_ok();
        crate::json::lemma_num_u64_round_trip(self.value as nat);
        assert(jval_wf(JValM::Num(jnum_of_nat(self.value as nat))));
        assert(jpairs_wf(m, 1));
        assert(jpairs_wf(m, 0));
    }

    /// Reading back the pairs this value prints yields it again,
    /// whatever single pair (the discriminant) stands in front.
    pub proof fn lemma_round_trip(self, front: (Seq<u8>, JValM))
        requires
            front.0 == k_tag_command(),
        ensures
            Self::sdecode(seq![front] + self.jpairs()) == Some(self),
    {
        let m = seq![front] + self.jpairs();
        // field `value`
        assert(m[1].0 == k_value());
        assert forall|j: int| 0 <= j < 1 implies m[j].0 != k_value() by {
            if j == 0 {
                assert(k_tag_command().len() != k_value().len());
            } else {
            }
        }
        lemma_slookup_at(m, k_value(), 1);
        crate::json::lemma_num_u64_round_trip(self.value as nat);
        assert(sget_u8(m, k_value()) == Some(self.value));
        assert(Self::sdecode(m) == Some(self));
    }
    pub fn new(val: u8) -> (r: FrcSetOverride)
        ensures
            r == (FrcSetOverride { value: val }),
    {
        FrcSetOverride { value: val }
    }

}

/// Response to a set-override command.
#[derive(Debug, Clone, Copy, PartialEq, Eq, Structural)]
pub struct FrcSetOverrideResponse {
    pub error_id: u16,
}

impl FrcSetOverrideResponse {
    /// The wire pairs of this value, in declaration order.
    pub open spec fn jpairs(self) -> Seq<(Seq<u8>, JValM)> {
        seq![
            (k_error_id(), JValM::Num(jnum_of_nat(self.error_id as nat))),
        ]
    }

    pub open spec fn wf(self) -> bool {
        true
    }

    /// Reads this value out of an object's pairs, by key;
    /// unknown pairs are ignored, a missing or ill-typed field fails.
    pub open spec fn sdecode(m: Seq<(Seq<u8>, JValM)>) -> Option<FrcSetOverrideResponse> {
        match sget_u16(m, k_error_id()) {
            Some(error_id) => 
            Some(FrcSetOverrideResponse { error_id }),
            None => None,
        }
    }

    pub fn push_pairs(&self, out: &mut Vec<(Vec<u8>, JVal)>)
        ensures
            model_pairs(final(out)@, 0) == model_pairs(old(out)@, 0) + self.jpairs(),
    {
        push_field_u32(out, key_error_id(), self.error_id as u32);
        proof {
            assert(model_pairs(out@, 0) =~= model_pairs(old(out)@, 0) + self.jpairs());
        }
    }

    pub fn from_pairs(pairs: &Vec<(Vec<u8>, JVal)>) -> (r: Option<FrcSetOverrideResponse>)
        ensures
            r == Self::sdecode(model_pairs(pairs@, 0)),
    {
        let error_id = match get_u16(pairs, key_error_id().as_slice()) {
            Some(v) => v,
            None => {
                return None;
            },
        };
        Some(FrcSetOverrideResponse { error_id })
    }

    pub proof fn lemma_wf(self)
        ensures
            jpairs_wf(self.jpairs(), 0),
    {
        let m = self.jpairs();
        k_error_id_ok();
        crate::json::lemma_num_u64_round_trip(self.error_id as nat);
        assert(jval_wf(JValM::Num(jnum_of_nat(self.error_id as nat))));
        assert(jpairs_wf(m, 1));
        assert(jpairs_wf(m, 0));
    }

    /// Reading back the pairs this value prints yields it again,
    /// whatever single pair (the discriminant) stands in front.
    pub proof fn lemma_round_trip(self, front: (Seq<u8>, JValM))
        requires
            front.0 == k_tag_command(),
        ensures
            Self::sdecode(seq![front] + self.jpairs()) == Some(self),
    {
        let m = seq![front] + self.jpairs();
        // field `error_id`
        assert(m[1].0 == k_error_id());
        assert forall|j: int| 0 <= j < 1 implies m[j].0 != k_error_id() by {
            if j == 0 {
                assert(k_tag_command()[0] != k_error_id()[0]);
            } else {
            }
        }
        lemma_slookup_at(m, k_error_id(), 1);
        crate::json::lemma_num_u64_round_trip(self.error_id as nat);
        assert(sget_u16(m, k_error_id()) == Some(self.error_id));
        assert(Self::sdecode(m) == Some(self));
    }

}

/// Read a position register.
#[derive(Debug, Clone, Copy, PartialEq, Eq, Structural)]
pub struct FrcReadPositionRegister {
    pub group: u8,
    pub register_number: u16,
}

impl FrcReadPositionRegister {
    /// The wire pairs of this value, in declaration order.
    pub open spec fn jpairs(self) -> Seq<(Seq<u8>, JValM)> {
        seq![
            (k_group(), JValM::Num(jnum_of_nat(self.group as nat))),
            (k_register_number(), JValM::Num(jnum_of_nat(self.register_number as nat))),
        ]
    }

    pub open spec fn wf(self) -> bool {
        true
    }

    /// Reads this value out of an object's pairs, by key;
    /// unknown pairs are ignored, a missing or ill-typed field fails.
    pub open spec fn sdecode(m: Seq<(Seq<u8>, JValM)>) -> Option<FrcReadPositionRegister> {
        match sget_u8(m, k_group()) {
            Some(group) => 
            match sget_u16(m, k_register_number()) {
                Some(register_number) => 
                Some(FrcReadPositionRegister { group, register_number }),
                None => None,
            },
            None => None,
        }
    }

    pub fn push_pairs(&self, out: &mut Vec<(Vec<u8>, JVal)>)
        ensures
            model_pairs(final(out)@, 0) == model_pairs(old(out)@, 0) + self.jpairs(),
    {
        push_field_u32(out, key_group(), self.group as u32);
        push_field_u32(out, key_register_number(), self.register_number as u32);
        proof {
            assert(model_pairs(out@, 0) =~= model_pairs(old(out)@, 0) + self.jpairs());
        }
    }

    pub fn from_pairs(pairs: &Vec<(Vec<u8>, JVal)>) -> (r: Option<FrcReadPositionRegister>)
        ensures
            r == Self::sdecode(model_pairs(pairs@, 0)),
    {
        let group = match get_u8(pairs, key_group().as_slice()) {
            Some(v) => v,
            None => {
                return None;
            },
        };
        let register_number = match get_u16(pairs, key_register_number().as_slice()) {
            Some(v) => v,
            None => {
                return None;
            },
        };
        Some(FrcReadPositionRegister { group, register_number })
    }

    pub proof fn lemma_wf(self)
        ensures
            jpairs_wf(self.jpairs(), 0),
    {
        let m = self.jpairs();
        k_group_ok();
        k_register_number_ok();
        crate::json::lemma_num_u64_round_trip(self.group as nat);
        crate::json::lemma_num_u64_round_trip(self.register_number as nat);
        assert(jval_wf(JValM::Num(jnum_of_nat(self.group as nat))));
        assert(jval_wf(JValM::Num(jnum_of_nat(self.register_number as nat))));
        assert(jpairs_wf(m, 2));
        assert(jpairs_wf(m, 1));
        assert(jpairs_wf(m, 0));
    }

    /// Reading back the pairs this value prints yields it again,
    /// whatever single pair (the discriminant) stands in front.
    pub proof fn lemma_round_trip(self, front: (Seq<u8>, JValM))
        requires
            front.0 == k_tag_command(),
        ensures
            Self::sdecode(seq![front] + self.jpairs()) == Some(self),
    {
        let m = seq![front] + self.jpairs();
        // field `group`
        assert(m[1].0 == k_group());
        assert forall|j: int| 0 <= j < 1 implies m[j].0 != k_group() by {
            if j == 0 {
                assert(k_tag_command().len() != k_group().len());
            } else {
            }
        }
        lemma_slookup_at(m, k_group(), 1);
        crate::json::lemma_num_u64_round_trip(self.group as nat);
        assert(sget_u8(m, k_group()) == Some(self.group));
        // field `register_number`
        assert(m[2].0 == k_register_number());
        assert forall|j: int| 0 <= j < 2 implies m[j].0 != k_register_number() by {
            if j == 0 {
                assert(k_tag_command().len() != k_register_number().len());
            } else if j == 1 {
                assert(k_group().len() != k_register_number().len());
            } else {
            }
        }
        lemma_slookup_at(m, k_register_number(), 2);
        crate::json::lemma_num_u64_round_trip(self.register_number as nat);
        assert(sget_u16(m, k_register_number()) == Some(self.register_number));
        assert(Self::sdecode(m) == Some(self));
    }
    pub fn new(groupentered: Option<u8>, register: u16) -> (r: FrcReadPositionRegister)
        ensures
            r == (FrcReadPositionRegister { group: opt_or_one(groupentered), register_number: register }),
    {
        FrcReadPositionRegister { group: match groupentered { Some(g) => g, None => 1 }, register_number: register }
    }

}

/// Response to a read-position-register command.
#[derive(Debug, Clone, Copy, PartialEq, Eq, Structural)]
pub struct FrcReadPositionRegisterResponse {
    pub error_id: u32,
    pub register_number: i16,
    pub config: Configuration,
    pub position: Position,
    pub group: i16,
}

impl FrcReadPositionRegisterResponse {
    /// The wire pairs of this value, in declaration order.
    pub open spec fn jpairs(self) -> Seq<(Seq<u8>, JValM)> {
        seq![
            (k_error_id(), JValM::Num(jnum_of_nat(self.error_id as nat))),
            (k_register_number(), JValM::Num(jnum_of_int(self.register_number as int))),
            (k_configuration(), JValM::Obj(self.config.jpairs())),
            (k_position(), JValM::Obj(self.position.jpairs())),
            (k_group(), JValM::Num(jnum_of_int(self.group as int))),
        ]
    }

    pub open spec fn wf(self) -> bool {
        self.config.wf() && self.position.wf()
    }

    /// Reads this value out of an object's pairs, by key;
    /// unknown pairs are ignored, a missing or ill-typed field fails.
    pub open spec fn sdecode(m: Seq<(Seq<u8>, JValM)>) -> Option<FrcReadPositionRegisterResponse> {
        match sget_u32(m, k_error_id()) {
            Some(error_id) => 
            match sget_i16(m, k_register_number()) {
                Some(register_number) => 
                match sget_config(m, k_configuration()) {
                    Some(config) => 
                    match sget_pos(m, k_position()) {
                        Some(position) => 
                        match sget_i16(m, k_group()) {
                            Some(group) => 
                            Some(FrcReadPositionRegisterResponse { error_id, register_number, config, position, group }),
                            None => None,
                        },
                        None => None,
                    },
                    None => None,
                },
                None => None,
            },
            None => None,
        }
    }

    #[verifier::rlimit(60)]
    pub fn push_pairs(&self, out: &mut Vec<(Vec<u8>, JVal)>)
        requires
            self.wf(),
        ensures
            model_pairs(final(out)@, 0) == model_pairs(old(out)@, 0) + self.jpairs(),
    {
        push_field_u32(out, key_error_id(), self.error_id as u32);
        push_field_i32(out, key_register_number(), self.register_number as i32);
        {
            let mut sub: Vec<(Vec<u8>, JVal)> = Vec::new();
            self.config.push_pairs(&mut sub);
            proof {
                assert(model_pairs(sub@, 0) =~= self.config.jpairs());
            }
            push_field_obj(out, key_configuration(), sub);
        }
        {
            let mut sub: Vec<(Vec<u8>, JVal)> = Vec::new();
            self.position.push_pairs(&mut sub);
            proof {
                assert(model_pairs(sub@, 0) =~= self.position.jpairs());
            }
            push_field_obj(out, key_position(), sub);
        }
        push_field_i32(out, key_group(), self.group as i32);
        proof {
            assert(model_pairs(out@, 0) =~= model_pairs(old(out)@, 0) + self.jpairs());
        }
    }

    pub fn from_pairs(pairs: &Vec<(Vec<u8>, JVal)>) -> (r: Option<FrcReadPositionRegisterResponse>)
        ensures
            r == Self::sdecode(model_pairs(pairs@, 0)),
    {
        let error_id = match get_u32(pairs, key_error_id().as_slice()) {
            Some(v) => v,
            None => {
                return None;
            },
        };
        let register_number = match get_i16(pairs, key_register_number().as_slice()) {
            Some(v) => v,
            None => {
                return None;
            },
        };
        let config = match get_config(pairs, key_configuration().as_slice()) {
            Some(v) => v,
            None => {
                return None;
            },
        };
        let position = match get_pos(pairs, key_position().as_slice()) {
            Some(v) => v,
            None => {
                return None;
            },
        };
        let group = match get_i16(pairs, key_group().as_slice()) {
            Some(v) => v,
            None => {
                return None;
            },
        };
        Some(FrcReadPositionRegisterResponse { error_id, register_number, config, position, group })
    }

    pub proof fn lemma_wf(self)
        requires
            self.wf(),
        ensures
            jpairs_wf(self.jpairs(), 0),
    {
        let m = self.jpairs();
        k_error_id_ok();
        k_register_number_ok();
        k_configuration_ok();
        k_position_ok();
        k_group_ok();
        crate::json::lemma_num_u64_round_trip(self.error_id as nat);
        crate::json::lemma_num_i64_round_trip(self.register_number as int);
        self.config.lemma_wf();
        self.position.lemma_wf();
        crate::json::lemma_num_i64_round_trip(self.group as int);
        assert(jval_wf(JValM::Num(jnum_of_nat(self.error_id as nat))));
        assert(jval_wf(JValM::Num(jnum_of_int(self.register_number as int))));
        assert(jval_wf(JValM::Obj(self.config.jpairs())));
        assert(jval_wf(JValM::Obj(self.position.jpairs())));
        assert(jval_wf(JValM::Num(jnum_of_int(self.group as int))));
        assert(jpairs_wf(m, 5));
        assert(jpairs_wf(m, 4));
        assert(jpairs_wf(m, 3));
        assert(jpairs_wf(m, 2));
        assert(jpairs_wf(m, 1));
        assert(jpairs_wf(m, 0));
    }

    /// Reading back the pairs this value prints yields it again,
    /// whatever single pair (the discriminant) stands in front.
    pub proof fn lemma_round_trip(self, front: (Seq<u8>, JValM))
        requires
            self.wf(),
            front.0 == k_tag_command(),
        ensures
            Self::sdecode(seq![front] + self.jpairs()) == Some(self),
    {
        let m = seq![front] + self.jpairs();
        // field `error_id`
        assert(m[1].0 == k_error_id());
        assert forall|j: int| 0 <= j < 1 implies m[j].0 != k_error_id() by {
            if j == 0 {
                assert(k_tag_command()[0] != k_error_id()[0]);
            } else {
            }
        }
        lemma_slookup_at(m, k_error_id(), 1);
        crate::json::lemma_num_u64_round_trip(self.error_id as nat);
        assert(sget_u32(m, k_error_id()) == Some(self.error_id));
        // field `register_number`
        assert(m[2].0 == k_register_number());
        assert forall|j: int| 0 <= j < 2 implies m[j].0 != k_register_number() by {
            if j == 0 {
                assert(k_tag_command().len() != k_register_number().len());
            } else if j == 1 {
                assert(k_error_id().len() != k_register_number().len());
            } else {
            }
        }
        lemma_slookup_at(m, k_register_number(), 2);
        crate::json::lemma_num_i64_round_trip(self.register_number as int);
        assert(sget_i16(m, k_register_number()) == Some(self.register_number));
        // field `config`
        assert(m[3].0 == k_configuration());
        assert forall|j: int| 0 <= j < 3 implies m[j].0 != k_configuration() by {
            if j == 0 {
                assert(k_tag_command().len() != k_configuration().len());
            } else if j == 1 {
                assert(k_error_id().len() != k_configuration().len());
            } else if j == 2 {
                assert(k_register_number().len() != k_configuration().len());
            } else {
            }
        }
        lemma_slookup_at(m, k_configuration(), 3);
        self.config.lemma_wf();
        self.config.lemma_round_trip();
        assert(sget_config(m, k_configuration()) == Some(self.config));
        // field `position`
        assert(m[4].0 == k_position());
        assert forall|j: int| 0 <= j < 4 implies m[j].0 != k_position() by {
            if j == 0 {
                assert(k_tag_command().len() != k_position().len());
            } else if j == 1 {
                assert(k_error_id().len() != k_position().len());
            } else if j == 2 {
                assert(k_register_number().len() != k_position().len());
            } else if j == 3 {
                assert(k_configuration().len() != k_position().len());
            } else {
            }
        }
        lemma_slookup_at(m, k_position(), 4);
        self.position.lemma_wf();
        self.position.lemma_round_trip();
        assert(sget_pos(m, k_position()) == Some(self.position));
        // field `group`
        assert(m[5].0 == k_group());
        assert forall|j: int| 0 <= j < 5 implies m[j].0 != k_group() by {
            if j == 0 {
                assert(k_tag_command().len() != k_group().len());
            } else if j == 1 {
                assert(k_error_id().len() != k_group().len());
            } else if j == 2 {
                assert(k_register_number().len() != k_group().len());
            } else if j == 3 {
                assert(k_configuration().len() != k_group().len());
            } else if j == 4 {
                assert(k_position().len() != k_group().len());
            } else {
            }
        }
        lemma_slookup_at(m, k_group(), 5);
        crate::json::lemma_num_i64_round_trip(self.group as int);
        assert(sget_i16(m, k_group()) == Some(self.group));
        assert(Self::sdecode(m) == Some(self));
    }

}

/// Write a position register.
#[derive(Debug, Clone, Copy, PartialEq, Eq, Structural)]
pub struct FrcWritePositionRegister {
    pub register_number: u16,
    pub configuration: Configuration,
    pub position: Position,
    pub group: u8,
}

impl FrcWritePositionRegister {
    /// The wire pairs of this value, in declaration order.
    pub open spec fn jpairs(self) -> Seq<(Seq<u8>, JValM)> {
        seq![
            (k_register_number(), JValM::Num(jnum_of_nat(self.register_number as nat))),
            (k_configuration(), JValM::Obj(self.configuration.jpairs())),
            (k_position(), JValM::Obj(self.position.jpairs())),
            (k_group(), JValM::Num(jnum_of_nat(self.group as nat))),
        ]
    }

    pub open spec fn wf(self) -> bool {
        self.configuration.wf() && self.position.wf()
    }

    /// Reads this value out of an object's pairs, by key;
    /// unknown pairs are ignored, a missing or ill-typed field fails.
    pub open spec fn sdecode(m: Seq<(Seq<u8>, JValM)>) -> Option<FrcWritePositionRegister> {
        match sget_u16(m, k_register_number()) {
            Some(register_number) => 
            match sget_config(m, k_configuration()) {
                Some(configuration) => 
                match sget_pos(m, k_position()) {
                    Some(position) => 
                    match sget_u8(m, k_group()) {
                        Some(group) => 
                        Some(FrcWritePositionRegister { register_number, configuration, position, group }),
                        None => None,
                    },
                    None => None,
                },
                None => None,
            },
            None => None,
        }
    }

    #[verifier::rlimit(60)]
    pub fn push_pairs(&self, out: &mut Vec<(Vec<u8>, JVal)>)
        requires
            self.wf(),
        ensures
            model_pairs(final(out)@, 0) == model_pairs(old(out)@, 0) + self.jpairs(),
    {
        push_field_u32(out, key_register_number(), self.register_number as u32);
        {
            let mut sub: Vec<(Vec<u8>, JVal)> = Vec::new();
            self.configuration.push_pairs(&mut sub);
            proof {
                assert(model_pairs(sub@, 0) =~= self.configuration.jpairs());
            }
            push_field_obj(out, key_configuration(), sub);
        }
        {
            let mut sub: Vec<(Vec<u8>, JVal)> = Vec::new();
            self.position.push_pairs(&mut sub);
            proof {
                assert(model_pairs(sub@, 0) =~= self.position.jpairs());
            }
            push_field_obj(out, key_position(), sub);
        }
        push_field_u32(out, key_group(), self.group as u32);
        proof {
            assert(model_pairs(out@, 0) =~= model_pairs(old(out)@, 0) + self.jpairs());
        }
    }

    pub fn from_pairs(pairs: &Vec<(Vec<u8>, JVal)>) -> (r: Option<FrcWritePositionRegister>)
        ensures
            r == Self::sdecode(model_pairs(pairs@, 0)),
    {
        let register_number = match get_u16(pairs, key_register_number().as_slice()) {
            Some(v) => v,
            None => {
                return None;
            },
        };
        let configuration = match get_config(pairs, key_configuration().as_slice()) {
            Some(v) => v,
            None => {
                return None;
            },
        };
        let position = match get_pos(pairs, key_position().as_slice()) {
            Some(v) => v,
            None => {
                return None;
            },
        };
        let group = match get_u8(pairs, key_group().as_slice()) {
            Some(v) => v,
            None => {
                return None;
            },
        };
        Some(FrcWritePositionRegister { register_number, configuration, position, group })
    }

    pub proof fn lemma_wf(self)
        requires
            self.wf(),
        ensures
            jpairs_wf(self.jpairs(), 0),
    {
        let m = self.jpairs();
        k_register_number_ok();
        k_configuration_ok();
        k_position_ok();
        k_group_ok();
        crate::json::lemma_num_u64_round_trip(self.register_number as nat);
        self.configuration.lemma_wf();
        self.position.lemma_wf();
        crate::json::lemma_num_u64_round_trip(self.group as nat);
        assert(jval_wf(JValM::Num(jnum_of_nat(self.register_number as nat))));
        assert(jval_wf(JValM::Obj(self.configuration.jpairs())));
        assert(jval_wf(JValM::Obj(self.position.jpairs())));
        assert(jval_wf(JValM::Num(jnum_of_nat(self.group as nat))));
        assert(jpairs_wf(m, 4));
        assert(jpairs_wf(m, 3));
        assert(jpairs_wf(m, 2));
        assert(jpairs_wf(m, 1));
        assert(jpairs_wf(m, 0));
    }

    /// Reading back the pairs this value prints yields it again,
    /// whatever single pair (the discriminant) stands in front.
    pub proof fn lemma_round_trip(self, front: (Seq<u8>, JValM))
        requires
            self.wf(),
            front.0 == k_tag_command(),
        ensures
            Self::sdecode(seq![front] + self.jpairs()) == Some(self),
    {
        let m = seq![front] + self.jpairs();
        // field `register_number`
        assert(m[1].0 == k_register_number());
        assert forall|j: int| 0 <= j < 1 implies m[j].0 != k_register_number() by {
            if j == 0 {
                assert(k_tag_command().len() != k_register_number().len());
            } else {
            }
        }
        lemma_slookup_at(m, k_register_number(), 1);
        crate::json::lemma_num_u64_round_trip(self.register_number as nat);
        assert(sget_u16(m, k_register_number()) == Some(self.register_number));
        // field `configuration`
        assert(m[2].0 == k_configuration());
        assert forall|j: int| 0 <= j < 2 implies m[j].0 != k_configuration() by {
            if j == 0 {
                assert(k_tag_command().len() != k_configuration().len());
            } else if j == 1 {
                assert(k_register_number().len() != k_configuration().len());
            } else {
            }
        }
        lemma_slookup_at(m, k_configuration(), 2);
        self.configuration.lemma_wf();
        self.configuration.lemma_round_trip();
        assert(sget_config(m, k_configuration()) == Some(self.configuration));
        // field `position`
        assert(m[3].0 == k_position());
        assert forall|j: int| 0 <= j < 3 implies m[j].0 != k_position() by {
            if j == 0 {
                assert(k_tag_command().len() != k_position().len());
            } else if j == 1 {
                assert(k_register_number().len() != k_position().len());
            } else if j == 2 {
                assert(k_configuration().len() != k_position().len());
            } else {
            }
        }
        lemma_slookup_at(m, k_position(), 3);
        self.position.lemma_wf();
        self.position.lemma_round_trip();
        assert(sget_pos(m, k_position()) == Some(self.position));
        // field `group`
        assert(m[4].0 == k_group());
        assert forall|j: int| 0 <= j < 4 implies m[j].0 != k_group() by {
            if j == 0 {
                assert(k_tag_command().len() != k_group().len());
            } else if j == 1 {
                assert(k_register_number().len() != k_group().len());
            } else if j == 2 {
                assert(k_configuration().len() != k_group().len());
            } else if j == 3 {
                assert(k_position().len() != k_group().len());
            } else {
            }
        }
        lemma_slookup_at(m, k_group(), 4);
        crate::json::lemma_num_u64_round_trip(self.group as nat);
        assert(sget_u8(m, k_group()) == Some(self.group));
        assert(Self::sdecode(m) == Some(self));
    }
    pub fn new(groupentered: Option<u8>, register: u16, config: Configuration, pos: Position) -> (r: FrcWritePositionRegister)
        ensures
            r == (FrcWritePositionRegister { register_number: register, configuration: config, position: pos, group: opt_or_one(groupentered) }),
    {
        FrcWritePositionRegister { register_number: register, configuration: config, position: pos, group: match groupentered { Some(g) => g, None => 1 } }
    }

}

/// Response to a write-position-register command.
#[derive(Debug, Clone, Copy, PartialEq, Eq, Structural)]
pub struct FrcWritePositionRegisterResponse {
    pub error_id: u32,
}

impl FrcWritePositionRegisterResponse {
    /// The wire pairs of this value, in declaration order.
    pub open spec fn jpairs(self) -> Seq<(Seq<u8>, JValM)> {
        seq![
            (k_error_id(), JValM::Num(jnum_of_nat(self.error_id as nat))),
        ]
    }

    pub open spec fn wf(self) -> bool {
        true
    }

    /// Reads this value out of an object's pairs, by key;
    /// unknown pairs are ignored, a missing or ill-typed field fails.
    pub open spec fn sdecode(m: Seq<(Seq<u8>, JValM)>) -> Option<FrcWritePositionRegisterResponse> {
        match sget_u32(m, k_error_id()) {
            Some(error_id) => 
            Some(FrcWritePositionRegisterResponse { error_id }),
            None => None,
        }
    }

    pub fn push_pairs(&self, out: &mut Vec<(Vec<u8>, JVal)>)
        ensures
            model_pairs(final(out)@, 0) == model_pairs(old(out)@, 0) + self.jpairs(),
    {
        push_field_u32(out, key_error_id(), self.error_id as u32);
        proof {
            assert(model_pairs(out@, 0) =~= model_pairs(old(out)@, 0) + self.jpairs());
        }
    }

    pub fn from_pairs(pairs: &Vec<(Vec<u8>, JVal)>) -> (r: Option<FrcWritePositionRegisterResponse>)
        ensures
            r == Self::sdecode(model_pairs(pairs@, 0)),
    {
        let error_id = match get_u32(pairs, key_error_id().as_slice()) {
            Some(v) => v,
            None => {
                return None;
            },
        };
        Some(FrcWritePositionRegisterResponse { error_id })
    }

    pub proof fn lemma_wf(self)
        ensures
            jpairs_wf(self.jpairs(), 0),
    {
        let m = self.jpairs();
        k_error_id_ok();
        crate::json::lemma_num_u64_round_trip(self.error_id as nat);
        assert(jval_wf(JValM::Num(jnum_of_nat(self.error_id as nat))));
        assert(jpairs_wf(m, 1));
        assert(jpairs_wf(m, 0));
    }

    /// Reading back the pairs this value prints yields it again,
    /// whatever single pair (the discriminant) stands in front.
    pub proof fn lemma_round_trip(self, front: (Seq<u8>, JValM))
        requires
            front.0 == k_tag_command(),
        ensures
            Self::sdecode(seq![front] + self.jpairs()) == Some(self),
    {
        let m = seq![front] + self.jpairs();
        // field `error_id`
        assert(m[1].0 == k_error_id());
        assert forall|j: int| 0 <= j < 1 implies m[j].0 != k_error_id() by {
            if j == 0 {
                assert(k_tag_command()[0] != k_error_id()[0]);
            } else {
            }
        }
        lemma_slookup_at(m, k_error_id(), 1);
        crate::json::lemma_num_u64_round_trip(self.error_id as nat);
        assert(sget_u32(m, k_error_id()) == Some(self.error_id));
        assert(Self::sdecode(m) == Some(self));
    }

}

/// Response to a read-TCP-speed command.
#[derive(Debug, Clone, Copy, PartialEq, Eq, Structural)]
pub struct FrcReadTCPSpeedResponse {
    pub error_id: u32,
    pub time_tag: u32,
    pub speed: Dec,
}

impl FrcReadTCPSpeedResponse {
    /// The wire pairs of this value, in declaration order.
    pub open spec fn jpairs(self) -> Seq<(Seq<u8>, JValM)> {
        seq![
            (k_error_id(), JValM::Num(jnum_of_nat(self.error_id as nat))),
            (k_time_tag(), JValM::Num(jnum_of_nat(self.time_tag as nat))),
            (k_speed(), JValM::Num(jnum_of_dec(self.speed))),
        ]
    }

    pub open spec fn wf(self) -> bool {
        self.speed.wf()
    }

    /// Reads this value out of an object's pairs, by key;
    /// unknown pairs are ignored, a missing or ill-typed field fails.
    pub open spec fn sdecode(m: Seq<(Seq<u8>, JValM)>) -> Option<FrcReadTCPSpeedResponse> {
        match sget_u32(m, k_error_id()) {
            Some(error_id) => 
            match sget_u32(m, k_time_tag()) {
                Some(time_tag) => 
                match sget_dec(m, k_speed()) {
                    Some(speed) => 
                    Some(FrcReadTCPSpeedResponse { error_id, time_tag, speed }),
                    None => None,
                },
                None => None,
            },
            None => None,
        }
    }

    pub fn push_pairs(&self, out: &mut Vec<(Vec<u8>, JVal)>)
        requires
            self.wf(),
        ensures
            model_pairs(final(out)@, 0) == model_pairs(old(out)@, 0) + self.jpairs(),
    {
        push_field_u32(out, key_error_id(), self.error_id as u32);
        push_field_u32(out, key_time_tag(), self.time_tag as u32);
        push_field_dec(out, key_speed(), self.speed);
        proof {
            assert(model_pairs(out@, 0) =~= model_pairs(old(out)@, 0) + self.jpairs());
        }
    }

    pub fn from_pairs(pairs: &Vec<(Vec<u8>, JVal)>) -> (r: Option<FrcReadTCPSpeedResponse>)
        ensures
            r == Self::sdecode(model_pairs(pairs@, 0)),
    {
        let error_id = match get_u32(pairs, key_error_id().as_slice()) {
            Some(v) => v,
            None => {
                return None;
            },
        };
        let time_tag = match get_u32(pairs, key_time_tag().as_slice()) {
            Some(v) => v,
            None => {
                return None;
            },
        };
        let speed = match get_dec(pairs, key_speed().as_slice()) {
            Some(v) => v,
            None => {
                return None;
            },
        };
        Some(FrcReadTCPSpeedResponse { error_id, time_tag, speed })
    }

    pub proof fn lemma_wf(self)
        requires
            self.wf(),
        ensures
            jpairs_wf(self.jpairs(), 0),
    {
        let m = self.jpairs();
        k_error_id_ok();
        k_time_tag_ok();
        k_speed_ok();
        crate::json::lemma_num_u64_round_trip(self.error_id as nat);
        crate::json::lemma_num_u64_round_trip(self.time_tag as nat);
        crate::json::lemma_num_dec_round_trip(self.speed);
        assert(jval_wf(JValM::Num(jnum_of_nat(self.error_id as nat))));
        assert(jval_wf(JValM::Num(jnum_of_nat(self.time_tag as nat))));
        assert(jval_wf(JValM::Num(jnum_of_dec(self.speed))));
        assert(jpairs_wf(m, 3));
        assert(jpairs_wf(m, 2));
        assert(jpairs_wf(m, 1));
        assert(jpairs_wf(m, 0));
    }

    /// Reading back the pairs this value prints yields it again,
    /// whatever single pair (the discriminant) stands in front.
    pub proof fn lemma_round_trip(self, front: (Seq<u8>, JValM))
        requires
            self.wf(),
            front.0 == k_tag_command(),
        ensures
            Self::sdecode(seq![front] + self.jpairs()) == Some(self),
    {
        let m = seq![front] + self.jpairs();
        // field `error_id`
        assert(m[1].0 == k_error_id());
        assert forall|j: int| 0 <= j < 1 implies m[j].0 != k_error_id() by {
            if j == 0 {
                assert(k_tag_command()[0] != k_error_id()[0]);
            } else {
            }
        }
        lemma_slookup_at(m, k_error_id(), 1);
        crate::json::lemma_num_u64_round_trip(self.error_id as nat);
        assert(sget_u32(m, k_error_id()) == Some(self.error_id));
        // field `time_tag`
        assert(m[2].0 == k_time_tag());
        assert forall|j: int| 0 <= j < 2 implies m[j].0 != k_time_tag() by {
            if j == 0 {
                assert(k_tag_command()[0] != k_time_tag()[0]);
            } else if j == 1 {
                assert(k_error_id()[0] != k_time_tag()[0]);
            } else {
            }
        }
        lemma_slookup_at(m, k_time_tag(), 2);
        crate::json::lemma_num_u64_round_trip(self.time_tag as nat);
        assert(sget_u32(m, k_time_tag()) == Some(self.time_tag));
        // field `speed`
        assert(m[3].0 == k_speed());
        assert forall|j: int| 0 <= j < 3 implies m[j].0 != k_speed() by {
            if j == 0 {
                assert(k_tag_command().len() != k_speed().len());
            } else if j == 1 {
                assert(k_error_id().len() != k_speed().len());
            } else if j == 2 {
                assert(k_time_tag().len() != k_speed().len());
            } else {
            }
        }
        lemma_slookup_at(m, k_speed(), 3);
        crate::json::lemma_num_dec_round_trip(self.speed);
        assert(sget_dec(m, k_speed()) == Some(self.speed));
        assert(Self::sdecode(m) == Some(self));
    }

}

} // verus!
