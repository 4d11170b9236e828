//! Command packets: single-shot controller operations, sent one at a
//! time and answered in order.

use vstd::prelude::*;
use crate::json::{
    model_pairs, JVal, JValM, sget_u8, sget_u16, sget_u32, sget_i8, sget_i16, sget_i32,
    sget_dec, sget_str, jpairs_wf, jval_wf, str_ok, lemma_slookup_at, lemma_jpairs_wf_cons,
    lemma_jval_size_le_print, lemma_parse_print_jval, parse_jval, e_parse_jval, e_print_jval,
    bytes_eq, print_jval, get_str, wire_obj,
};
use crate::keys::{
    k_count,
    k_error_data,
    k_error_id,
    k_t_abort,
    k_t_abort_ok,
    k_t_continue,
    k_t_continue_ok,
    k_t_get_status,
    k_t_get_status_ok,
    k_t_get_uframe_utool,
    k_t_get_uframe_utool_ok,
    k_t_initialize,
    k_t_initialize_ok,
    k_t_pause,
    k_t_pause_ok,
    k_t_read_cartesian_position,
    k_t_read_cartesian_position_ok,
    k_t_read_din,
    k_t_read_din_ok,
    k_t_read_error,
    k_t_read_error_ok,
    k_t_read_joint_angles,
    k_t_read_joint_angles_ok,
    k_t_read_position_register,
    k_t_read_position_register_ok,
    k_t_read_tcp_speed,
    k_t_read_tcp_speed_ok,
    k_t_read_uframe_data,
    k_t_read_uframe_data_ok,
    k_t_read_utool_data,
    k_t_read_utool_data_ok,
    k_t_reset,
    k_t_reset_ok,
    k_t_set_override,
    k_t_set_override_ok,
    k_t_set_uframe_utool,
    k_t_set_uframe_utool_ok,
    k_t_write_dout,
    k_t_write_dout_ok,
    k_t_write_position_register,
    k_t_write_position_register_ok,
    k_t_write_position_register_req,
    k_t_write_position_register_req_ok,
    k_t_write_uframe_data,
    k_t_write_uframe_data_ok,
    k_t_write_utool_data,
    k_t_write_utool_data_ok,
    k_tag_command,
    k_tag_command_ok,
    key_t_abort,
    key_t_continue,
    key_t_get_status,
    key_t_get_uframe_utool,
    key_t_initialize,
    key_t_pause,
    key_t_read_cartesian_position,
    key_t_read_din,
    key_t_read_error,
    key_t_read_joint_angles,
    key_t_read_position_register,
    key_t_read_tcp_speed,
    key_t_read_uframe_data,
    key_t_read_utool_data,
    key_t_reset,
    key_t_set_override,
    key_t_set_uframe_utool,
    key_t_write_dout,
    key_t_write_position_register,
    key_t_write_position_register_req,
    key_t_write_uframe_data,
    key_t_write_utool_data,
    key_tag_command,
};
use crate::wire::{push_field_str, sget_config, sget_pos, sget_joints, sget_framedata};
use crate::commands::{
    FrcInitialize, FrcInitializeResponse, FrcAbortResponse, FrcPauseResponse,
    FrcContinueResponse, FrcResetResponse, FrcReadError, FrcReadErrorResponse,
    FrcSetUFrameUTool, FrcSetUFrameUToolResponse, FrcGetUFrameUTool, FrcGetUFrameUToolResponse,
    FrcGetStatusResponse, FrcReadUFrameData, FrcReadUFrameDataResponse, FrcWriteUFrameData,
    FrcWriteUFrameDataResponse, FrcReadUToolDataResponse, FrcWriteUToolData,
    FrcWriteUToolDataResponse, FrcReadDIN, FrcReadDINResponse, FrcWriteDOUT,
    FrcWriteDOUTResponse, FrcReadCartesianPosition, FrcReadCartesianPositionResponse,
    FrcReadJointAngles, FrcReadJointAnglesResponse, FrcSetOverride, FrcSetOverrideResponse,
    FrcReadPositionRegister, FrcReadPositionRegisterResponse, FrcWritePositionRegister,
    FrcWritePositionRegisterResponse, FrcReadTCPSpeedResponse,
};
use crate::FrcError;

verus! {


/// Single-shot controller operations.
#[derive(Debug, Clone, PartialEq, Eq)]
pub enum Command {
    FrcInitialize(FrcInitialize),
    FrcAbort,
    FrcPause,
    FrcReadError(FrcReadError),
    FrcContinue,
    FrcSetUFrameUTool(FrcSetUFrameUTool),
    FrcReadPositionRegister(FrcReadPositionRegister),
    FrcWritePositionRegister(FrcWritePositionRegister),
    FrcSetOverride(FrcSetOverride),
    FrcGetStatus,
    FrcGetUFrameUTool(FrcGetUFrameUTool),
    FrcWriteUToolData(FrcWriteUToolData),
    FrcReadUFrameData(FrcReadUFrameData),
    FrcWriteUFrameData(FrcWriteUFrameData),
    FrcReset,
    FrcReadDIN(FrcReadDIN),
    FrcWriteDOUT(FrcWriteDOUT),
    FrcReadCartesianPosition(FrcReadCartesianPosition),
    FrcReadJointAngles(FrcReadJointAngles),
    FrcReadTCPSpeed,
}

impl Command {
    /// The wire spelling of this packet's discriminant value.
    pub open spec fn tag_name(self) -> Seq<u8> {
        match self {
            Command::FrcInitialize(_) => k_t_initialize(),
            Command::FrcAbort => k_t_abort(),
            Command::FrcPause => k_t_pause(),
            Command::FrcReadError(_) => k_t_read_error(),
            Command::FrcContinue => k_t_continue(),
            Command::FrcSetUFrameUTool(_) => k_t_set_uframe_utool(),
            Command::FrcReadPositionRegister(_) => k_t_read_position_register(),
            Command::FrcWritePositionRegister(_) => k_t_write_position_register_req(),
            Command::FrcSetOverride(_) => k_t_set_override(),
            Command::FrcGetStatus => k_t_get_status(),
            Command::FrcGetUFrameUTool(_) => k_t_get_uframe_utool(),
            Command::FrcWriteUToolData(_) => k_t_write_utool_data(),
            Command::FrcReadUFrameData(_) => k_t_read_uframe_data(),
            Command::FrcWriteUFrameData(_) => k_t_write_uframe_data(),
            Command::FrcReset => k_t_reset(),
            Command::FrcReadDIN(_) => k_t_read_din(),
            Command::FrcWriteDOUT(_) => k_t_write_dout(),
            Command::FrcReadCartesianPosition(_) => k_t_read_cartesian_position(),
            Command::FrcReadJointAngles(_) => k_t_read_joint_angles(),
            Command::FrcReadTCPSpeed => k_t_read_tcp_speed(),
        }
    }

    /// The payload's wire pairs; empty for bare discriminants.
    pub open spec fn payload_pairs(self) -> Seq<(Seq<u8>, JValM)> {
        match self {
            Command::FrcInitialize(p) => p.jpairs(),
            Command::FrcAbort => Seq::empty(),
            Command::FrcPause => Seq::empty(),
            Command::FrcReadError(p) => p.jpairs(),
            Command::FrcContinue => Seq::empty(),
            Command::FrcSetUFrameUTool(p) => p.jpairs(),
            Command::FrcReadPositionRegister(p) => p.jpairs(),
            Command::FrcWritePositionRegister(p) => p.jpairs(),
            Command::FrcSetOverride(p) => p.jpairs(),
            Command::FrcGetStatus => Seq::empty(),
            Command::FrcGetUFrameUTool(p) => p.jpairs(),
            Command::FrcWriteUToolData(p) => p.jpairs(),
            Command::FrcReadUFrameData(p) => p.jpairs(),
            Command::FrcWriteUFrameData(p) => p.jpairs(),
            Command::FrcReset => Seq::empty(),
            Command::FrcReadDIN(p) => p.jpairs(),
            Command::FrcWriteDOUT(p) => p.jpairs(),
            Command::FrcReadCartesianPosition(p) => p.jpairs(),
            Command::FrcReadJointAngles(p) => p.jpairs(),
            Command::FrcReadTCPSpeed => Seq::empty(),
        }
    }

    pub open spec fn wf(self) -> bool {
        match self {
            Command::FrcInitialize(p) => p.wf(),
            Command::FrcAbort => true,
            Command::FrcPause => true,
            Command::FrcReadError(p) => p.wf(),
            Command::FrcContinue => true,
            Command::FrcSetUFrameUTool(p) => p.wf(),
            Command::FrcReadPositionRegister(p) => p.wf(),
            Command::FrcWritePositionRegister(p) => p.wf(),
            Command::FrcSetOverride(p) => p.wf(),
            Command::FrcGetStatus => true,
            Command::FrcGetUFrameUTool(p) => p.wf(),
            Command::FrcWriteUToolData(p) => p.wf(),
            Command::FrcReadUFrameData(p) => p.wf(),
            Command::FrcWriteUFrameData(p) => p.wf(),
            Command::FrcReset => true,
            Command::FrcReadDIN(p) => p.wf(),
            Command::FrcWriteDOUT(p) => p.wf(),
            Command::FrcReadCartesianPosition(p) => p.wf(),
            Command::FrcReadJointAngles(p) => p.wf(),
            Command::FrcReadTCPSpeed => true,
        }
    }

    /// The discriminant pair followed by the payload's pairs.
    pub open spec fn jpairs_full(self) -> Seq<(Seq<u8>, JValM)> {
        seq![(k_tag_command(), JValM::Str(self.tag_name()))] + self.payload_pairs()
    }

    pub open spec fn jval(self) -> JValM {
        JValM::Obj(self.jpairs_full())
    }

    /// The exact JSON text of this packet, without the frame terminator.
    pub open spec fn spec_wire(self) -> Seq<u8> {
        print_jval(self.jval())
    }

    /// Packet equality; no byte-string fields, so plain equality.
    pub open spec fn pkt_eq(a: Command, b: Command) -> bool {
        a == b
    }

    /// Discriminant values this family recognizes.
    pub open spec fn known_tag(t: Seq<u8>) -> bool {
        ||| t == k_t_initialize()
        ||| t == k_t_abort()
        ||| t == k_t_pause()
        ||| t == k_t_read_error()
        ||| t == k_t_continue()
        ||| t == k_t_set_uframe_utool()
        ||| t == k_t_read_position_register()
        ||| t == k_t_write_position_register_req()
        ||| t == k_t_set_override()
        ||| t == k_t_get_status()
        ||| t == k_t_get_uframe_utool()
        ||| t == k_t_write_utool_data()
        ||| t == k_t_read_uframe_data()
        ||| t == k_t_write_uframe_data()
        ||| t == k_t_reset()
        ||| t == k_t_read_din()
        ||| t == k_t_write_dout()
        ||| t == k_t_read_cartesian_position()
        ||| t == k_t_read_joint_angles()
        ||| t == k_t_read_tcp_speed()
    }

    pub proof fn lemma_wf(self)
        requires
            self.wf(),
        ensures
            jval_wf(self.jval()),
    {
        k_tag_command_ok();
        match self {
            Command::FrcInitialize(p) => {
                k_t_initialize_ok();
                p.lemma_wf();
                assert(jval_wf(JValM::Str(k_t_initialize())));
                lemma_jpairs_wf_cons((k_tag_command(), JValM::Str(k_t_initialize())), p.jpairs());
            },
            Command::FrcAbort => {
                k_t_abort_ok();
                let m = self.jpairs_full();
                assert(self.payload_pairs() =~= Seq::<(Seq<u8>, JValM)>::empty());
                assert(m =~= seq![(k_tag_command(), JValM::Str(k_t_abort()))]);
                assert(jval_wf(JValM::Str(k_t_abort())));
                assert(jpairs_wf(m, 1));
                assert(jpairs_wf(m, 0));
            },
            Command::FrcPause => {
                k_t_pause_ok();
                let m = self.jpairs_full();
                assert(self.payload_pairs() =~= Seq::<(Seq<u8>, JValM)>::empty());
                assert(m =~= seq![(k_tag_command(), JValM::Str(k_t_pause()))]);
                assert(jval_wf(JValM::Str(k_t_pause())));
                assert(jpairs_wf(m, 1));
                assert(jpairs_wf(m, 0));
            },
            Command::FrcReadError(p) => {
                k_t_read_error_ok();
                p.lemma_wf();
                assert(jval_wf(JValM::Str(k_t_read_error())));
                lemma_jpairs_wf_cons((k_tag_command(), JValM::Str(k_t_read_error())), p.jpairs());
            },
            Command::FrcContinue => {
                k_t_continue_ok();
                let m = self.jpairs_full();
                assert(self.payload_pairs() =~= Seq::<(Seq<u8>, JValM)>::empty());
                assert(m =~= seq![(k_tag_command(), JValM::Str(k_t_continue()))]);
                assert(jval_wf(JValM::Str(k_t_continue())));
                assert(jpairs_wf(m, 1));
                assert(jpairs_wf(m, 0));
            },
            Command::FrcSetUFrameUTool(p) => {
                k_t_set_uframe_utool_ok();
                p.lemma_wf();
                assert(jval_wf(JValM::Str(k_t_set_uframe_utool())));
                lemma_jpairs_wf_cons((k_tag_command(), JValM::Str(k_t_set_uframe_utool())), p.jpairs());
            },
            Command::FrcReadPositionRegister(p) => {
                k_t_read_position_register_ok();
                p.lemma_wf();
                assert(jval_wf(JValM::Str(k_t_read_position_register())));
                lemma_jpairs_wf_cons((k_tag_command(), JValM::Str(k_t_read_position_register())), p.jpairs());
            },
            Command::FrcWritePositionRegister(p) => {
                k_t_write_position_register_req_ok();
                p.lemma_wf();
                assert(jval_wf(JValM::Str(k_t_write_position_register_req())));
                lemma_jpairs_wf_cons((k_tag_command(), JValM::Str(k_t_write_position_register_req())), p.jpairs());
            },
            Command::FrcSetOverride(p) => {
                k_t_set_override_ok();
                p.lemma_wf();
                assert(jval_wf(JValM::Str(k_t_set_override())));
                lemma_jpairs_wf_cons((k_tag_command(), JValM::Str(k_t_set_override())), p.jpairs());
            },
            Command::FrcGetStatus => {
                k_t_get_status_ok();
                let m = self.jpairs_full();
                assert(self.payload_pairs() =~= Seq::<(Seq<u8>, JValM)>::empty());
                assert(m =~= seq![(k_tag_command(), JValM::Str(k_t_get_status()))]);
                assert(jval_wf(JValM::Str(k_t_get_status())));
                assert(jpairs_wf(m, 1));
                assert(jpairs_wf(m, 0));
            },
            Command::FrcGetUFrameUTool(p) => {
                k_t_get_uframe_utool_ok();
                p.lemma_wf();
                assert(jval_wf(JValM::Str(k_t_get_uframe_utool())));
                lemma_jpairs_wf_cons((k_tag_command(), JValM::Str(k_t_get_uframe_utool())), p.jpairs());
            },
            Command::FrcWriteUToolData(p) => {
                k_t_write_utool_data_ok();
                p.lemma_wf();
                assert(jval_wf(JValM::Str(k_t_write_utool_data())));
                lemma_jpairs_wf_cons((k_tag_command(), JValM::Str(k_t_write_utool_data())), p.jpairs());
            },
            Command::FrcReadUFrameData(p) => {
                k_t_read_uframe_data_ok();
                p.lemma_wf();
                assert(jval_wf(JValM::Str(k_t_read_uframe_data())));
                lemma_jpairs_wf_cons((k_tag_command(), JValM::Str(k_t_read_uframe_data())), p.jpairs());
            },
            Command::FrcWriteUFrameData(p) => {
                k_t_write_uframe_data_ok();
                p.lemma_wf();
                assert(jval_wf(JValM::Str(k_t_write_uframe_data())));
                lemma_jpairs_wf_cons((k_tag_command(), JValM::Str(k_t_write_uframe_data())), p.jpairs());
            },
            Command::FrcReset => {
                k_t_reset_ok();
                let m = self.jpairs_full();
                assert(self.payload_pairs() =~= Seq::<(Seq<u8>, JValM)>::empty());
                assert(m =~= seq![(k_tag_command(), JValM::Str(k_t_reset()))]);
                assert(jval_wf(JValM::Str(k_t_reset())));
                assert(jpairs_wf(m, 1));
                assert(jpairs_wf(m, 0));
            },
            Command::FrcReadDIN(p) => {
                k_t_read_din_ok();
                p.lemma_wf();
                assert(jval_wf(JValM::Str(k_t_read_din())));
                lemma_jpairs_wf_cons((k_tag_command(), JValM::Str(k_t_read_din())), p.jpairs());
            },
            Command::FrcWriteDOUT(p) => {
                k_t_write_dout_ok();
                p.lemma_wf();
                assert(jval_wf(JValM::Str(k_t_write_dout())));
                lemma_jpairs_wf_cons((k_tag_command(), JValM::Str(k_t_write_dout())), p.jpairs());
            },
            Command::FrcReadCartesianPosition(p) => {
                k_t_read_cartesian_position_ok();
                p.lemma_wf();
                assert(jval_wf(JValM::Str(k_t_read_cartesian_position())));
                lemma_jpairs_wf_cons((k_tag_command(), JValM::Str(k_t_read_cartesian_position())), p.jpairs());
            },
            Command::FrcReadJointAngles(p) => {
                k_t_read_joint_angles_ok();
                p.lemma_wf();
                assert(jval_wf(JValM::Str(k_t_read_joint_angles())));
                lemma_jpairs_wf_cons((k_tag_command(), JValM::Str(k_t_read_joint_angles())), p.jpairs());
            },
            Command::FrcReadTCPSpeed => {
                k_t_read_tcp_speed_ok();
                let m = self.jpairs_full();
                assert(self.payload_pairs() =~= Seq::<(Seq<u8>, JValM)>::empty());
                assert(m =~= seq![(k_tag_command(), JValM::Str(k_t_read_tcp_speed()))]);
                assert(jval_wf(JValM::Str(k_t_read_tcp_speed())));
                assert(jpairs_wf(m, 1));
                assert(jpairs_wf(m, 0));
            },
        }
    }

    /// What the printed form of a packet parses to, and the
    /// discriminant its pairs carry.
    pub proof fn lemma_wire_facts(p: Command, s: Seq<u8>)
        requires
            p.wf(),
            s == p.spec_wire(),
        ensures
            parse_jval(s, 0, s.len() as nat) == Some((p.jval(), s.len() as int)),
            sget_str(p.jpairs_full(), k_tag_command()) == Some(p.tag_name()),
    {
        p.lemma_wf();
        lemma_jval_size_le_print(p.jval());
        assert(s.subrange(0, s.len() as int) =~= s);
        lemma_parse_print_jval(p.jval(), s, 0, s.len() as nat);
        let m = p.jpairs_full();
        assert(m[0] == (k_tag_command(), JValM::Str(p.tag_name())));
        lemma_slookup_at(m, k_tag_command(), 0);
    }

    /// No two discriminant spellings of this family coincide.
    pub proof fn lemma_tags_distinct()
        ensures
            k_t_initialize() != k_t_abort(),
            k_t_initialize() != k_t_pause(),
            k_t_initialize() != k_t_read_error(),
            k_t_initialize() != k_t_continue(),
            k_t_initialize() != k_t_set_uframe_utool(),
            k_t_initialize() != k_t_read_position_register(),
            k_t_initialize() != k_t_write_position_register_req(),
            k_t_initialize() != k_t_set_override(),
            k_t_initialize() != k_t_get_status(),
            k_t_initialize() != k_t_get_uframe_utool(),
            k_t_initialize() != k_t_write_utool_data(),
            k_t_initialize() != k_t_read_uframe_data(),
            k_t_initialize() != k_t_write_uframe_data(),
            k_t_initialize() != k_t_reset(),
            k_t_initialize() != k_t_read_din(),
            k_t_initialize() != k_t_write_dout(),
            k_t_initialize() != k_t_read_cartesian_position(),
            k_t_initialize() != k_t_read_joint_angles(),
            k_t_initialize() != k_t_read_tcp_speed(),
            k_t_abort() != k_t_pause(),
            k_t_abort() != k_t_read_error(),
            k_t_abort() != k_t_continue(),
            k_t_abort() != k_t_set_uframe_utool(),
            k_t_abort() != k_t_read_position_register(),
            k_t_abort() != k_t_write_position_register_req(),
            k_t_abort() != k_t_set_override(),
            k_t_abort() != k_t_get_status(),
            k_t_abort() != k_t_get_uframe_utool(),
            k_t_abort() != k_t_write_utool_data(),
            k_t_abort() != k_t_read_uframe_data(),
            k_t_abort() != k_t_write_uframe_data(),
            k_t_abort() != k_t_reset(),
            k_t_abort() != k_t_read_din(),
            k_t_abort() != k_t_write_dout(),
            k_t_abort() != k_t_read_cartesian_position(),
            k_t_abort() != k_t_read_joint_angles(),
            k_t_abort() != k_t_read_tcp_speed(),
            k_t_pause() != k_t_read_error(),
            k_t_pause() != k_t_continue(),
            k_t_pause() != k_t_set_uframe_utool(),
            k_t_pause() != k_t_read_position_register(),
            k_t_pause() != k_t_write_position_register_req(),
            k_t_pause() != k_t_set_override(),
            k_t_pause() != k_t_get_status(),
            k_t_pause() != k_t_get_uframe_utool(),
            k_t_pause() != k_t_write_utool_data(),
            k_t_pause() != k_t_read_uframe_data(),
            k_t_pause() != k_t_write_uframe_data(),
            k_t_pause() != k_t_reset(),
            k_t_pause() != k_t_read_din(),
            k_t_pause() != k_t_write_dout(),
            k_t_pause() != k_t_read_cartesian_position(),
            k_t_pause() != k_t_read_joint_angles(),
            k_t_pause() != k_t_read_tcp_speed(),
            k_t_read_error() != k_t_continue(),
            k_t_read_error() != k_t_set_uframe_utool(),
            k_t_read_error() != k_t_read_position_register(),
            k_t_read_error() != k_t_write_position_register_req(),
            k_t_read_error() != k_t_set_override(),
            k_t_read_error() != k_t_get_status(),
            k_t_read_error() != k_t_get_uframe_utool(),
            k_t_read_error() != k_t_write_utool_data(),
            k_t_read_error() != k_t_read_uframe_data(),
            k_t_read_error() != k_t_write_uframe_data(),
            k_t_read_error() != k_t_reset(),
            k_t_read_error() != k_t_read_din(),
            k_t_read_error() != k_t_write_dout(),
            k_t_read_error() != k_t_read_cartesian_position(),
            k_t_read_error() != k_t_read_joint_angles(),
            k_t_read_error() != k_t_read_tcp_speed(),
            k_t_continue() != k_t_set_uframe_utool(),
            k_t_continue() != k_t_read_position_register(),
            k_t_continue() != k_t_write_position_register_req(),
            k_t_continue() != k_t_set_override(),
            k_t_continue() != k_t_get_status(),
            k_t_continue() != k_t_get_uframe_utool(),
            k_t_continue() != k_t_write_utool_data(),
            k_t_continue() != k_t_read_uframe_data(),
            k_t_continue() != k_t_write_uframe_data(),
            k_t_continue() != k_t_reset(),
            k_t_continue() != k_t_read_din(),
            k_t_continue() != k_t_write_dout(),
            k_t_continue() != k_t_read_cartesian_position(),
            k_t_continue() != k_t_read_joint_angles(),
            k_t_continue() != k_t_read_tcp_speed(),
            k_t_set_uframe_utool() != k_t_read_position_register(),
            k_t_set_uframe_utool() != k_t_write_position_register_req(),
            k_t_set_uframe_utool() != k_t_set_override(),
            k_t_set_uframe_utool() != k_t_get_status(),
            k_t_set_uframe_utool() != k_t_get_uframe_utool(),
            k_t_set_uframe_utool() != k_t_write_utool_data(),
            k_t_set_uframe_utool() != k_t_read_uframe_data(),
            k_t_set_uframe_utool() != k_t_write_uframe_data(),
            k_t_set_uframe_utool() != k_t_reset(),
            k_t_set_uframe_utool() != k_t_read_din(),
            k_t_set_uframe_utool() != k_t_write_dout(),
            k_t_set_uframe_utool() != k_t_read_cartesian_position(),
            k_t_set_uframe_utool() != k_t_read_joint_angles(),
            k_t_set_uframe_utool() != k_t_read_tcp_speed(),
            k_t_read_position_register() != k_t_write_position_register_req(),
            k_t_read_position_register() != k_t_set_override(),
            k_t_read_position_register() != k_t_get_status(),
            k_t_read_position_register() != k_t_get_uframe_utool(),
            k_t_read_position_register() != k_t_write_utool_data(),
            k_t_read_position_register() != k_t_read_uframe_data(),
            k_t_read_position_register() != k_t_write_uframe_data(),
            k_t_read_position_register() != k_t_reset(),
            k_t_read_position_register() != k_t_read_din(),
            k_t_read_position_register() != k_t_write_dout(),
            k_t_read_position_register() != k_t_read_cartesian_position(),
            k_t_read_position_register() != k_t_read_joint_angles(),
            k_t_read_position_register() != k_t_read_tcp_speed(),
            k_t_write_position_register_req() != k_t_set_override(),
            k_t_write_position_register_req() != k_t_get_status(),
            k_t_write_position_register_req() != k_t_get_uframe_utool(),
            k_t_write_position_register_req() != k_t_write_utool_data(),
            k_t_write_position_register_req() != k_t_read_uframe_data(),
            k_t_write_position_register_req() != k_t_write_uframe_data(),
            k_t_write_position_register_req() != k_t_reset(),
            k_t_write_position_register_req() != k_t_read_din(),
            k_t_write_position_register_req() != k_t_write_dout(),
            k_t_write_position_register_req() != k_t_read_cartesian_position(),
            k_t_write_position_register_req() != k_t_read_joint_angles(),
            k_t_write_position_register_req() != k_t_read_tcp_speed(),
            k_t_set_override() != k_t_get_status(),
            k_t_set_override() != k_t_get_uframe_utool(),
            k_t_set_override() != k_t_write_utool_data(),
            k_t_set_override() != k_t_read_uframe_data(),
            k_t_set_override() != k_t_write_uframe_data(),
            k_t_set_override() != k_t_reset(),
            k_t_set_override() != k_t_read_din(),
            k_t_set_override() != k_t_write_dout(),
            k_t_set_override() != k_t_read_cartesian_position(),
            k_t_set_override() != k_t_read_joint_angles(),
            k_t_set_override() != k_t_read_tcp_speed(),
            k_t_get_status() != k_t_get_uframe_utool(),
            k_t_get_status() != k_t_write_utool_data(),
            k_t_get_status() != k_t_read_uframe_data(),
            k_t_get_status() != k_t_write_uframe_data(),
            k_t_get_status() != k_t_reset(),
            k_t_get_status() != k_t_read_din(),
            k_t_get_status() != k_t_write_dout(),
            k_t_get_status() != k_t_read_cartesian_position(),
            k_t_get_status() != k_t_read_joint_angles(),
            k_t_get_status() != k_t_read_tcp_speed(),
            k_t_get_uframe_utool() != k_t_write_utool_data(),
            k_t_get_uframe_utool() != k_t_read_uframe_data(),
            k_t_get_uframe_utool() != k_t_write_uframe_data(),
            k_t_get_uframe_utool() != k_t_reset(),
            k_t_get_uframe_utool() != k_t_read_din(),
            k_t_get_uframe_utool() != k_t_write_dout(),
            k_t_get_uframe_utool() != k_t_read_cartesian_position(),
            k_t_get_uframe_utool() != k_t_read_joint_angles(),
            k_t_get_uframe_utool() != k_t_read_tcp_speed(),
            k_t_write_utool_data() != k_t_read_uframe_data(),
            k_t_write_utool_data() != k_t_write_uframe_data(),
            k_t_write_utool_data() != k_t_reset(),
            k_t_write_utool_data() != k_t_read_din(),
            k_t_write_utool_data() != k_t_write_dout(),
            k_t_write_utool_data() != k_t_read_cartesian_position(),
            k_t_write_utool_data() != k_t_read_joint_angles(),
            k_t_write_utool_data() != k_t_read_tcp_speed(),
            k_t_read_uframe_data() != k_t_write_uframe_data(),
            k_t_read_uframe_data() != k_t_reset(),
            k_t_read_uframe_data() != k_t_read_din(),
            k_t_read_uframe_data() != k_t_write_dout(),
            k_t_read_uframe_data() != k_t_read_cartesian_position(),
            k_t_read_uframe_data() != k_t_read_joint_angles(),
            k_t_read_uframe_data() != k_t_read_tcp_speed(),
            k_t_write_uframe_data() != k_t_reset(),
            k_t_write_uframe_data() != k_t_read_din(),
            k_t_write_uframe_data() != k_t_write_dout(),
            k_t_write_uframe_data() != k_t_read_cartesian_position(),
            k_t_write_uframe_data() != k_t_read_joint_angles(),
            k_t_write_uframe_data() != k_t_read_tcp_speed(),
            k_t_reset() != k_t_read_din(),
            k_t_reset() != k_t_write_dout(),
            k_t_reset() != k_t_read_cartesian_position(),
            k_t_reset() != k_t_read_joint_angles(),
            k_t_reset() != k_t_read_tcp_speed(),
            k_t_read_din() != k_t_write_dout(),
            k_t_read_din() != k_t_read_cartesian_position(),
            k_t_read_din() != k_t_read_joint_angles(),
            k_t_read_din() != k_t_read_tcp_speed(),
            k_t_write_dout() != k_t_read_cartesian_position(),
            k_t_write_dout() != k_t_read_joint_angles(),
            k_t_write_dout() != k_t_read_tcp_speed(),
            k_t_read_cartesian_position() != k_t_read_joint_angles(),
            k_t_read_cartesian_position() != k_t_read_tcp_speed(),
            k_t_read_joint_angles() != k_t_read_tcp_speed(),
    {
        assert(k_t_initialize().len() != k_t_abort().len());
        assert(k_t_initialize().len() != k_t_pause().len());
        assert(k_t_initialize().len() != k_t_read_error().len());
        assert(k_t_initialize().len() != k_t_continue().len());
        assert(k_t_initialize().len() != k_t_set_uframe_utool().len());
        assert(k_t_initialize().len() != k_t_read_position_register().len());
        assert(k_t_initialize().len() != k_t_write_position_register_req().len());
        assert(k_t_initialize().len() != k_t_set_override().len());
        assert(k_t_initialize().len() != k_t_get_status().len());
        assert(k_t_initialize().len() != k_t_get_uframe_utool().len());
        assert(k_t_initialize().len() != k_t_write_utool_data().len());
        assert(k_t_initialize().len() != k_t_read_uframe_data().len());
        assert(k_t_initialize().len() != k_t_write_uframe_data().len());
        assert(k_t_initialize().len() != k_t_reset().len());
        assert(k_t_initialize().len() != k_t_read_din().len());
        assert(k_t_initialize().len() != k_t_write_dout().len());
        assert(k_t_initialize().len() != k_t_read_cartesian_position().len());
        assert(k_t_initialize().len() != k_t_read_joint_angles().len());
        assert(k_t_initialize().len() != k_t_read_tcp_speed().len());
        assert(k_t_abort()[4] != k_t_pause()[4]);
        assert(k_t_abort().len() != k_t_read_error().len());
        assert(k_t_abort().len() != k_t_continue().len());
        assert(k_t_abort().len() != k_t_set_uframe_utool().len());
        assert(k_t_abort().len() != k_t_read_position_register().len());
        assert(k_t_abort().len() != k_t_write_position_register_req().len());
        assert(k_t_abort().len() != k_t_set_override().len());
        assert(k_t_abort().len() != k_t_get_status().len());
        assert(k_t_abort().len() != k_t_get_uframe_utool().len());
        assert(k_t_abort().len() != k_t_write_utool_data().len());
        assert(k_t_abort().len() != k_t_read_uframe_data().len());
        assert(k_t_abort().len() != k_t_write_uframe_data().len());
        assert(k_t_abort()[4] != k_t_reset()[4]);
        assert(k_t_abort().len() != k_t_read_din().len());
        assert(k_t_abort().len() != k_t_write_dout().len());
        assert(k_t_abort().len() != k_t_read_cartesian_position().len());
        assert(k_t_abort().len() != k_t_read_joint_angles().len());
        assert(k_t_abort().len() != k_t_read_tcp_speed().len());
        assert(k_t_pause().len() != k_t_read_error().len());
        assert(k_t_pause().len() != k_t_continue().len());
        assert(k_t_pause().len() != k_t_set_uframe_utool().len());
        assert(k_t_pause().len() != k_t_read_position_register().len());
        assert(k_t_pause().len() != k_t_write_position_register_req().len());
        assert(k_t_pause().len() != k_t_set_override().len());
        assert(k_t_pause().len() != k_t_get_status().len());
        assert(k_t_pause().len() != k_t_get_uframe_utool().len());
        assert(k_t_pause().len() != k_t_write_utool_data().len());
        assert(k_t_pause().len() != k_t_read_uframe_data().len());
        assert(k_t_pause().len() != k_t_write_uframe_data().len());
        assert(k_t_pause()[4] != k_t_reset()[4]);
        assert(k_t_pause().len() != k_t_read_din().len());
        assert(k_t_pause().len() != k_t_write_dout().len());
        assert(k_t_pause().len() != k_t_read_cartesian_position().len());
        assert(k_t_pause().len() != k_t_read_joint_angles().len());
        assert(k_t_pause().len() != k_t_read_tcp_speed().len());
        assert(k_t_read_error().len() != k_t_continue().len());
        assert(k_t_read_error().len() != k_t_set_uframe_utool().len());
        assert(k_t_read_error().len() != k_t_read_position_register().len());
        assert(k_t_read_error().len() != k_t_write_position_register_req().len());
        assert(k_t_read_error().len() != k_t_set_override().len());
        assert(k_t_read_error()[4] != k_t_get_status()[4]);
        assert(k_t_read_error().len() != k_t_get_uframe_utool().len());
        assert(k_t_read_error().len() != k_t_write_utool_data().len());
        assert(k_t_read_error().len() != k_t_read_uframe_data().len());
        assert(k_t_read_error().len() != k_t_write_uframe_data().len());
        assert(k_t_read_error().len() != k_t_reset().len());
        assert(k_t_read_error().len() != k_t_read_din().len());
        assert(k_t_read_error()[4] != k_t_write_dout()[4]);
        assert(k_t_read_error().len() != k_t_read_cartesian_position().len());
        assert(k_t_read_error().len() != k_t_read_joint_angles().len());
        assert(k_t_read_error().len() != k_t_read_tcp_speed().len());
        assert(k_t_continue().len() != k_t_set_uframe_utool().len());
        assert(k_t_continue().len() != k_t_read_position_register().len());
        assert(k_t_continue().len() != k_t_write_position_register_req().len());
        assert(k_t_continue().len() != k_t_set_override().len());
        assert(k_t_continue().len() != k_t_get_status().len());
        assert(k_t_continue().len() != k_t_get_uframe_utool().len());
        assert(k_t_continue().len() != k_t_write_utool_data().len());
        assert(k_t_continue().len() != k_t_read_uframe_data().len());
        assert(k_t_continue().len() != k_t_write_uframe_data().len());
        assert(k_t_continue().len() != k_t_reset().len());
        assert(k_t_continue().len() != k_t_read_din().len());
        assert(k_t_continue().len() != k_t_write_dout().len());
        assert(k_t_continue().len() != k_t_read_cartesian_position().len());
        assert(k_t_continue().len() != k_t_read_joint_angles().len());
        assert(k_t_continue().len() != k_t_read_tcp_speed().len());
        assert(k_t_set_uframe_utool().len() != k_t_read_position_register().len());
        assert(k_t_set_uframe_utool().len() != k_t_write_position_register_req().len());
        assert(k_t_set_uframe_utool().len() != k_t_set_override().len());
        assert(k_t_set_uframe_utool().len() != k_t_get_status().len());
        assert(k_t_set_uframe_utool()[4] != k_t_get_uframe_utool()[4]);
        assert(k_t_set_uframe_utool()[4] != k_t_write_utool_data()[4]);
        assert(k_t_set_uframe_utool()[4] != k_t_read_uframe_data()[4]);
        assert(k_t_set_uframe_utool().len() != k_t_write_uframe_data().len());
        assert(k_t_set_uframe_utool().len() != k_t_reset().len());
        assert(k_t_set_uframe_utool().len() != k_t_read_din().len());
        assert(k_t_set_uframe_utool().len() != k_t_write_dout().len());
        assert(k_t_set_uframe_utool().len() != k_t_read_cartesian_position().len());
        assert(k_t_set_uframe_utool().len() != k_t_read_joint_angles().len());
        assert(k_t_set_uframe_utool().len() != k_t_read_tcp_speed().len());
        assert(k_t_read_position_register()[1] != k_t_write_position_register_req()[1]);
        assert(k_t_read_position_register().len() != k_t_set_override().len());
        assert(k_t_read_position_register().len() != k_t_get_status().len());
        assert(k_t_read_position_register().len() != k_t_get_uframe_utool().len());
        assert(k_t_read_position_register().len() != k_t_write_utool_data().len());
        assert(k_t_read_position_register().len() != k_t_read_uframe_data().len());
        assert(k_t_read_position_register().len() != k_t_write_uframe_data().len());
        assert(k_t_read_position_register().len() != k_t_reset().len());
        assert(k_t_read_position_register().len() != k_t_read_din().len());
        assert(k_t_read_position_register().len() != k_t_write_dout().len());
        assert(k_t_read_position_register().len() != k_t_read_cartesian_position().len());
        assert(k_t_read_position_register().len() != k_t_read_joint_angles().len());
        assert(k_t_read_position_register().len() != k_t_read_tcp_speed().len());
        assert(k_t_write_position_register_req().len() != k_t_set_override().len());
        assert(k_t_write_position_register_req().len() != k_t_get_status().len());
        assert(k_t_write_position_register_req().len() != k_t_get_uframe_utool().len());
        assert(k_t_write_position_register_req().len() != k_t_write_utool_data().len());
        assert(k_t_write_position_register_req().len() != k_t_read_uframe_data().len());
        assert(k_t_write_position_register_req().len() != k_t_write_uframe_data().len());
        assert(k_t_write_position_register_req().len() != k_t_reset().len());
        assert(k_t_write_position_register_req().len() != k_t_read_din().len());
        assert(k_t_write_position_register_req().len() != k_t_write_dout().len());
        assert(k_t_write_position_register_req().len() != k_t_read_cartesian_position().len());
        assert(k_t_write_position_register_req().len() != k_t_read_joint_angles().len());
        assert(k_t_write_position_register_req().len() != k_t_read_tcp_speed().len());
        assert(k_t_set_override().len() != k_t_get_status().len());
        assert(k_t_set_override().len() != k_t_get_uframe_utool().len());
        assert(k_t_set_override().len() != k_t_write_utool_data().len());
        assert(k_t_set_override().len() != k_t_read_uframe_data().len());
        assert(k_t_set_override().len() != k_t_write_uframe_data().len());
        assert(k_t_set_override().len() != k_t_reset().len());
        assert(k_t_set_override().len() != k_t_read_din().len());
        assert(k_t_set_override().len() != k_t_write_dout().len());
        assert(k_t_set_override().len() != k_t_read_cartesian_position().len());
        assert(k_t_set_override().len() != k_t_read_joint_angles().len());
        assert(k_t_set_override().len() != k_t_read_tcp_speed().len());
        assert(k_t_get_status().len() != k_t_get_uframe_utool().len());
        assert(k_t_get_status().len() != k_t_write_utool_data().len());
        assert(k_t_get_status().len() != k_t_read_uframe_data().len());
        assert(k_t_get_status().len() != k_t_write_uframe_data().len());
        assert(k_t_get_status().len() != k_t_reset().len());
        assert(k_t_get_status().len() != k_t_read_din().len());
        assert(k_t_get_status()[4] != k_t_write_dout()[4]);
        assert(k_t_get_status().len() != k_t_read_cartesian_position().len());
        assert(k_t_get_status().len() != k_t_read_joint_angles().len());
        assert(k_t_get_status().len() != k_t_read_tcp_speed().len());
        assert(k_t_get_uframe_utool()[4] != k_t_write_utool_data()[4]);
        assert(k_t_get_uframe_utool()[4] != k_t_read_uframe_data()[4]);
        assert(k_t_get_uframe_utool().len() != k_t_write_uframe_data().len());
        assert(k_t_get_uframe_utool().len() != k_t_reset().len());
        assert(k_t_get_uframe_utool().len() != k_t_read_din().len());
        assert(k_t_get_uframe_utool().len() != k_t_write_dout().len());
        assert(k_t_get_uframe_utool().len() != k_t_read_cartesian_position().len());
        assert(k_t_get_uframe_utool().len() != k_t_read_joint_angles().len());
        assert(k_t_get_uframe_utool().len() != k_t_read_tcp_speed().len());
        assert(k_t_write_utool_data()[4] != k_t_read_uframe_data()[4]);
        assert(k_t_write_utool_data().len() != k_t_write_uframe_data().len());
        assert(k_t_write_utool_data().len() != k_t_reset().len());
        assert(k_t_write_utool_data().len() != k_t_read_din().len());
        assert(k_t_write_utool_data().len() != k_t_write_dout().len());
        assert(k_t_write_utool_data().len() != k_t_read_cartesian_position().len());
        assert(k_t_write_utool_data().len() != k_t_read_joint_angles().len());
        assert(k_t_write_utool_data().len() != k_t_read_tcp_speed().len());
        assert(k_t_read_uframe_data().len() != k_t_write_uframe_data().len());
        assert(k_t_read_uframe_data().len() != k_t_reset().len());
        assert(k_t_read_uframe_data().len() != k_t_read_din().len());
        assert(k_t_read_uframe_data().len() != k_t_write_dout().len());
        assert(k_t_read_uframe_data().len() != k_t_read_cartesian_position().len());
        assert(k_t_read_uframe_data().len() != k_t_read_joint_angles().len());
        assert(k_t_read_uframe_data().len() != k_t_read_tcp_speed().len());
        assert(k_t_write_uframe_data().len() != k_t_reset().len());
        assert(k_t_write_uframe_data().len() != k_t_read_din().len());
        assert(k_t_write_uframe_data().len() != k_t_write_dout().len());
        assert(k_t_write_uframe_data().len() != k_t_read_cartesian_position().len());
        assert(k_t_write_uframe_data()[4] != k_t_read_joint_angles()[4]);
        assert(k_t_write_uframe_data().len() != k_t_read_tcp_speed().len());
        assert(k_t_reset().len() != k_t_read_din().len());
        assert(k_t_reset().len() != k_t_write_dout().len());
        assert(k_t_reset().len() != k_t_read_cartesian_position().len());
        assert(k_t_reset().len() != k_t_read_joint_angles().len());
        assert(k_t_reset().len() != k_t_read_tcp_speed().len());
        assert(k_t_read_din().len() != k_t_write_dout().len());
        assert(k_t_read_din().len() != k_t_read_cartesian_position().len());
        assert(k_t_read_din().len() != k_t_read_joint_angles().len());
        assert(k_t_read_din().len() != k_t_read_tcp_speed().len());
        assert(k_t_write_dout().len() != k_t_read_cartesian_position().len());
        assert(k_t_write_dout().len() != k_t_read_joint_angles().len());
        assert(k_t_write_dout().len() != k_t_read_tcp_speed().len());
        assert(k_t_read_cartesian_position().len() != k_t_read_joint_angles().len());
        assert(k_t_read_cartesian_position().len() != k_t_read_tcp_speed().len());
        assert(k_t_read_joint_angles().len() != k_t_read_tcp_speed().len());
    }

    /// The wire bytes of this packet: its JSON text followed by the
    /// carriage-return line-feed frame terminator.
    pub fn encode(&self) -> (r: Vec<u8>)
        requires
            self.wf(),
        ensures
            r@ == self.spec_wire() + seq![13u8, 10u8],
    {
        let mut pairs: Vec<(Vec<u8>, JVal)> = Vec::new();
        match self {
            Command::FrcInitialize(p) => {
                push_field_str(&mut pairs, key_tag_command(), key_t_initialize().as_slice());
                p.push_pairs(&mut pairs);
                proof {
                    assert(model_pairs(pairs@, 0) =~= self.jpairs_full());
                }
            },
            Command::FrcAbort => {
                push_field_str(&mut pairs, key_tag_command(), key_t_abort().as_slice());
                proof {
                    assert(model_pairs(pairs@, 0) =~= self.jpairs_full());
                }
            },
            Command::FrcPause => {
                push_field_str(&mut pairs, key_tag_command(), key_t_pause().as_slice());
                proof {
                    assert(model_pairs(pairs@, 0) =~= self.jpairs_full());
                }
            },
            Command::FrcReadError(p) => {
                push_field_str(&mut pairs, key_tag_command(), key_t_read_error().as_slice());
                p.push_pairs(&mut pairs);
                proof {
                    assert(model_pairs(pairs@, 0) =~= self.jpairs_full());
                }
            },
            Command::FrcContinue => {
                push_field_str(&mut pairs, key_tag_command(), key_t_continue().as_slice());
                proof {
                    assert(model_pairs(pairs@, 0) =~= self.jpairs_full());
                }
            },
            Command::FrcSetUFrameUTool(p) => {
                push_field_str(&mut pairs, key_tag_command(), key_t_set_uframe_utool().as_slice());
                p.push_pairs(&mut pairs);
                proof {
                    assert(model_pairs(pairs@, 0) =~= self.jpairs_full());
                }
            },
            Command::FrcReadPositionRegister(p) => {
                push_field_str(&mut pairs, key_tag_command(), key_t_read_position_register().as_slice());
                p.push_pairs(&mut pairs);
                proof {
                    assert(model_pairs(pairs@, 0) =~= self.jpairs_full());
                }
            },
            Command::FrcWritePositionRegister(p) => {
                push_field_str(&mut pairs, key_tag_command(), key_t_write_position_register_req().as_slice());
                p.push_pairs(&mut pairs);
                proof {
                    assert(model_pairs(pairs@, 0) =~= self.jpairs_full());
                }
            },
            Command::FrcSetOverride(p) => {
                push_field_str(&mut pairs, key_tag_command(), key_t_set_override().as_slice());
                p.push_pairs(&mut pairs);
                proof {
                    assert(model_pairs(pairs@, 0) =~= self.jpairs_full());
                }
            },
            Command::FrcGetStatus => {
                push_field_str(&mut pairs, key_tag_command(), key_t_get_status().as_slice());
                proof {
                    assert(model_pairs(pairs@, 0) =~= self.jpairs_full());
                }
            },
            Command::FrcGetUFrameUTool(p) => {
                push_field_str(&mut pairs, key_tag_command(), key_t_get_uframe_utool().as_slice());
                p.push_pairs(&mut pairs);
                proof {
                    assert(model_pairs(pairs@, 0) =~= self.jpairs_full());
                }
            },
            Command::FrcWriteUToolData(p) => {
                push_field_str(&mut pairs, key_tag_command(), key_t_write_utool_data().as_slice());
                p.push_pairs(&mut pairs);
                proof {
                    assert(model_pairs(pairs@, 0) =~= self.jpairs_full());
                }
            },
            Command::FrcReadUFrameData(p) => {
                push_field_str(&mut pairs, key_tag_command(), key_t_read_uframe_data().as_slice());
                p.push_pairs(&mut pairs);
                proof {
                    assert(model_pairs(pairs@, 0) =~= self.jpairs_full());
                }
            },
            Command::FrcWriteUFrameData(p) => {
                push_field_str(&mut pairs, key_tag_command(), key_t_write_uframe_data().as_slice());
                p.push_pairs(&mut pairs);
                proof {
                    assert(model_pairs(pairs@, 0) =~= self.jpairs_full());
                }
            },
            Command::FrcReset => {
                push_field_str(&mut pairs, key_tag_command(), key_t_reset().as_slice());
                proof {
                    assert(model_pairs(pairs@, 0) =~= self.jpairs_full());
                }
            },
            Command::FrcReadDIN(p) => {
                push_field_str(&mut pairs, key_tag_command(), key_t_read_din().as_slice());
                p.push_pairs(&mut pairs);
                proof {
                    assert(model_pairs(pairs@, 0) =~= self.jpairs_full());
                }
            },
            Command::FrcWriteDOUT(p) => {
                push_field_str(&mut pairs, key_tag_command(), key_t_write_dout().as_slice());
                p.push_pairs(&mut pairs);
                proof {
                    assert(model_pairs(pairs@, 0) =~= self.jpairs_full());
                }
            },
            Command::FrcReadCartesianPosition(p) => {
                push_field_str(&mut pairs, key_tag_command(), key_t_read_cartesian_position().as_slice());
                p.push_pairs(&mut pairs);
                proof {
                    assert(model_pairs(pairs@, 0) =~= self.jpairs_full());
                }
            },
            Command::FrcReadJointAngles(p) => {
                push_field_str(&mut pairs, key_tag_command(), key_t_read_joint_angles().as_slice());
                p.push_pairs(&mut pairs);
                proof {
                    assert(model_pairs(pairs@, 0) =~= self.jpairs_full());
                }
            },
            Command::FrcReadTCPSpeed => {
                push_field_str(&mut pairs, key_tag_command(), key_t_read_tcp_speed().as_slice());
                proof {
                    assert(model_pairs(pairs@, 0) =~= self.jpairs_full());
                }
            },
        }
        let v = JVal::Obj(pairs);
        let mut out: Vec<u8> = Vec::new();
        e_print_jval(&v, &mut out);
        out.push(13);
        out.push(10);
        proof {
            assert(out@ =~= self.spec_wire() + seq![13u8, 10u8]);
        }
        out
    }

    /// Decodes one frame (without its terminator).
    ///
    /// Decoding what `encode` produced yields the packet back. More
    /// generally, any frame that parses as one whole object with a
    /// known discriminant decodes by field name alone: unknown extra
    /// pairs and any pair order are accepted. An unknown discriminant
    /// is reported as such; bytes that are no wire object at all, an
    /// object without a discriminant, and missing or ill-typed fields
    /// are reported as serialization failures. Never a panic.
    #[verifier::rlimit(100)]
    pub fn decode(frame: &[u8]) -> (r: Result<Command, FrcError>)
        ensures
            (forall|p: Command| #![auto] p.wf() && frame@ == p.spec_wire() ==> (r matches Ok(q) && Command::pkt_eq(q, p))),
            (wire_obj(frame@) is None ==> (r matches Err(FrcError::Serialization(_)))),
            ((match wire_obj(frame@) {
                Some(m) => sget_str(m, k_tag_command()) is None ==> (r matches Err(
                    FrcError::Serialization(_),
                )),
                None => true,
            })),
            ((match wire_obj(frame@) {
                Some(m) => (match sget_str(m, k_tag_command()) {
                    Some(t) => !Command::known_tag(t) ==> r == Err::<Self, FrcError>(
                        FrcError::UnrecognizedPacket,
                    ),
                    None => true,
                }),
                None => true,
            })),
            ((r matches Ok(q) ==> (wire_obj(frame@) matches Some(m) && sget_str(m, k_tag_command())
                == Some(q.tag_name())))),
            ((match wire_obj(frame@) {
                Some(m) => sget_str(m, k_tag_command()) == Some(k_t_initialize()) ==> (match
                    FrcInitialize::sdecode(m) {
                    Some(pl) => r == Ok::<Self, FrcError>(Command::FrcInitialize(pl)),
                    None => (r matches Err(FrcError::Serialization(_))),
                }),
                None => true,
            })),
            ((match wire_obj(frame@) {
                Some(m) => sget_str(m, k_tag_command()) == Some(k_t_abort()) ==> r == Ok::<
                    Self,
                    FrcError,
                >(Command::FrcAbort),
                None => true,
            })),
            ((match wire_obj(frame@) {
                Some(m) => sget_str(m, k_tag_command()) == Some(k_t_pause()) ==> r == Ok::<
                    Self,
                    FrcError,
                >(Command::FrcPause),
                None => true,
            })),
            ((match wire_obj(frame@) {
                Some(m) => sget_str(m, k_tag_command()) == Some(k_t_read_error()) ==> (match
                    FrcReadError::sdecode(m) {
                    Some(pl) => r == Ok::<Self, FrcError>(Command::FrcReadError(pl)),
                    None => (r matches Err(FrcError::Serialization(_))),
                }),
                None => true,
            })),
            ((match wire_obj(frame@) {
                Some(m) => sget_str(m, k_tag_command()) == Some(k_t_continue()) ==> r == Ok::<
                    Self,
                    FrcError,
                >(Command::FrcContinue),
                None => true,
            })),
            ((match wire_obj(frame@) {
                Some(m) => sget_str(m, k_tag_command()) == Some(k_t_set_uframe_utool()) ==> (match
                    FrcSetUFrameUTool::sdecode(m) {
                    Some(pl) => r == Ok::<Self, FrcError>(Command::FrcSetUFrameUTool(pl)),
                    None => (r matches Err(FrcError::Serialization(_))),
                }),
                None => true,
            })),
            ((match wire_obj(frame@) {
                Some(m) => sget_str(m, k_tag_command()) == Some(k_t_read_position_register()) ==> (match
                    FrcReadPositionRegister::sdecode(m) {
                    Some(pl) => r == Ok::<Self, FrcError>(Command::FrcReadPositionRegister(pl)),
                    None => (r matches Err(FrcError::Serialization(_))),
                }),
                None => true,
            })),
            ((match wire_obj(frame@) {
                Some(m) => sget_str(m, k_tag_command()) == Some(k_t_write_position_register_req()) ==> (match
                    FrcWritePositionRegister::sdecode(m) {
                    Some(pl) => r == Ok::<Self, FrcError>(Command::FrcWritePositionRegister(pl)),
                    None => (r matches Err(FrcError::Serialization(_))),
                }),
                None => true,
            })),
            ((match wire_obj(frame@) {
                Some(m) => sget_str(m, k_tag_command()) == Some(k_t_set_override()) ==> (match
                    FrcSetOverride::sdecode(m) {
                    Some(pl) => r == Ok::<Self, FrcError>(Command::FrcSetOverride(pl)),
                    None => (r matches Err(FrcError::Serialization(_))),
                }),
                None => true,
            })),
            ((match wire_obj(frame@) {
                Some(m) => sget_str(m, k_tag_command()) == Some(k_t_get_status()) ==> r == Ok::<
                    Self,
                    FrcError,
                >(Command::FrcGetStatus),
                None => true,
            })),
            ((match wire_obj(frame@) {
                Some(m) => sget_str(m, k_tag_command()) == Some(k_t_get_uframe_utool()) ==> (match
                    FrcGetUFrameUTool::sdecode(m) {
                    Some(pl) => r == Ok::<Self, FrcError>(Command::FrcGetUFrameUTool(pl)),
                    None => (r matches Err(FrcError::Serialization(_))),
                }),
                None => true,
            })),
            ((match wire_obj(frame@) {
                Some(m) => sget_str(m, k_tag_command()) == Some(k_t_write_utool_data()) ==> (match
                    FrcWriteUToolData::sdecode(m) {
                    Some(pl) => r == Ok::<Self, FrcError>(Command::FrcWriteUToolData(pl)),
                    None => (r matches Err(FrcError::Serialization(_))),
                }),
                None => true,
            })),
            ((match wire_obj(frame@) {
                Some(m) => sget_str(m, k_tag_command()) == Some(k_t_read_uframe_data()) ==> (match
                    FrcReadUFrameData::sdecode(m) {
                    Some(pl) => r == Ok::<Self, FrcError>(Command::FrcReadUFrameData(pl)),
                    None => (r matches Err(FrcError::Serialization(_))),
                }),
                None => true,
            })),
            ((match wire_obj(frame@) {
                Some(m) => sget_str(m, k_tag_command()) == Some(k_t_write_uframe_data()) ==> (match
                    FrcWriteUFrameData::sdecode(m) {
                    Some(pl) => r == Ok::<Self, FrcError>(Command::FrcWriteUFrameData(pl)),
                    None => (r matches Err(FrcError::Serialization(_))),
                }),
                None => true,
            })),
            ((match wire_obj(frame@) {
                Some(m) => sget_str(m, k_tag_command()) == Some(k_t_reset()) ==> r == Ok::<
                    Self,
                    FrcError,
                >(Command::FrcReset),
                None => true,
            })),
            ((match wire_obj(frame@) {
                Some(m) => sget_str(m, k_tag_command()) == Some(k_t_read_din()) ==> (match
                    FrcReadDIN::sdecode(m) {
                    Some(pl) => r == Ok::<Self, FrcError>(Command::FrcReadDIN(pl)),
                    None => (r matches Err(FrcError::Serialization(_))),
                }),
                None => true,
            })),
            ((match wire_obj(frame@) {
                Some(m) => sget_str(m, k_tag_command()) == Some(k_t_write_dout()) ==> (match
                    FrcWriteDOUT::sdecode(m) {
                    Some(pl) => r == Ok::<Self, FrcError>(Command::FrcWriteDOUT(pl)),
                    None => (r matches Err(FrcError::Serialization(_))),
                }),
                None => true,
            })),
            ((match wire_obj(frame@) {
                Some(m) => sget_str(m, k_tag_command()) == Some(k_t_read_cartesian_position()) ==> (match
                    FrcReadCartesianPosition::sdecode(m) {
                    Some(pl) => r == Ok::<Self, FrcError>(Command::FrcReadCartesianPosition(pl)),
                    None => (r matches Err(FrcError::Serialization(_))),
                }),
                None => true,
            })),
            ((match wire_obj(frame@) {
                Some(m) => sget_str(m, k_tag_command()) == Some(k_t_read_joint_angles()) ==> (match
                    FrcReadJointAngles::sdecode(m) {
                    Some(pl) => r == Ok::<Self, FrcError>(Command::FrcReadJointAngles(pl)),
                    None => (r matches Err(FrcError::Serialization(_))),
                }),
                None => true,
            })),
            ((match wire_obj(frame@) {
                Some(m) => sget_str(m, k_tag_command()) == Some(k_t_read_tcp_speed()) ==> r == Ok::<
                    Self,
                    FrcError,
                >(Command::FrcReadTCPSpeed),
                None => true,
            })),
    {
        let parsed = e_parse_jval(frame, 0, frame.len());
        let (jv, end) = match parsed {
            Some(vj) => vj,
            None => {
                proof {
                    assert forall|p: Command| p.wf() && frame@ == p.spec_wire() implies false by {
                        Command::lemma_wire_facts(p, frame@);
                    }
                }
                return Err(FrcError::Serialization("frame did not parse as a wire object".to_owned()));
            },
        };
        if end != frame.len() {
            proof {
                assert forall|p: Command| p.wf() && frame@ == p.spec_wire() implies false by {
                    Command::lemma_wire_facts(p, frame@);
                }
            }
            return Err(FrcError::Serialization("frame holds trailing bytes".to_owned()));
        }
        let ghost gv = jv.model();
        match jv {
            JVal::Obj(pairs) => {
                let tag = match get_str(&pairs, key_tag_command().as_slice()) {
                    Some(t) => t,
                    None => {
                        proof {
                            assert forall|p: Command| p.wf() && frame@ == p.spec_wire() implies false by {
                                Command::lemma_wire_facts(p, frame@);
                            }
                        }
                        return Err(FrcError::Serialization("frame names no discriminant".to_owned()));
                    },
                };
                let res: Result<Command, FrcError> = 
                if bytes_eq(tag.as_slice(), key_t_initialize().as_slice()) {
                    match FrcInitialize::from_pairs(&pairs) {
                        Some(pl) => Ok(Command::FrcInitialize(pl)),
                        None => Err(FrcError::Serialization("FRC_Initialize fields did not decode".to_owned())),
                    }
                } else if bytes_eq(tag.as_slice(), key_t_abort().as_slice()) {
                    Ok(Command::FrcAbort)
                } else if bytes_eq(tag.as_slice(), key_t_pause().as_slice()) {
                    Ok(Command::FrcPause)
                } else if bytes_eq(tag.as_slice(), key_t_read_error().as_slice()) {
                    match FrcReadError::from_pairs(&pairs) {
                        Some(pl) => Ok(Command::FrcReadError(pl)),
                        None => Err(FrcError::Serialization("FRC_ReadError fields did not decode".to_owned())),
                    }
                } else if bytes_eq(tag.as_slice(), key_t_continue().as_slice()) {
                    Ok(Command::FrcContinue)
                } else if bytes_eq(tag.as_slice(), key_t_set_uframe_utool().as_slice()) {
                    match FrcSetUFrameUTool::from_pairs(&pairs) {
                        Some(pl) => Ok(Command::FrcSetUFrameUTool(pl)),
                        None => Err(FrcError::Serialization("FRC_SetUFrameUTool fields did not decode".to_owned())),
                    }
                } else if bytes_eq(tag.as_slice(), key_t_read_position_register().as_slice()) {
                    match FrcReadPositionRegister::from_pairs(&pairs) {
                        Some(pl) => Ok(Command::FrcReadPositionRegister(pl)),
                        None => Err(FrcError::Serialization("FRC_ReadPositionRegister fields did not decode".to_owned())),
                    }
                } else if bytes_eq(tag.as_slice(), key_t_write_position_register_req().as_slice()) {
                    match FrcWritePositionRegister::from_pairs(&pairs) {
                        Some(pl) => Ok(Command::FrcWritePositionRegister(pl)),
                        None => Err(FrcError::Serialization("FrcWritePositionRegister fields did not decode".to_owned())),
                    }
                } else if bytes_eq(tag.as_slice(), key_t_set_override().as_slice()) {
                    match FrcSetOverride::from_pairs(&pairs) {
                        Some(pl) => Ok(Command::FrcSetOverride(pl)),
                        None => Err(FrcError::Serialization("FRC_SetOverride fields did not decode".to_owned())),
                    }
                } else if bytes_eq(tag.as_slice(), key_t_get_status().as_slice()) {
                    Ok(Command::FrcGetStatus)
                } else if bytes_eq(tag.as_slice(), key_t_get_uframe_utool().as_slice()) {
                    match FrcGetUFrameUTool::from_pairs(&pairs) {
                        Some(pl) => Ok(Command::FrcGetUFrameUTool(pl)),
                        None => Err(FrcError::Serialization("FRC_GetUFrameUTool fields did not decode".to_owned())),
                    }
                } else if bytes_eq(tag.as_slice(), key_t_write_utool_data().as_slice()) {
                    match FrcWriteUToolData::from_pairs(&pairs) {
                        Some(pl) => Ok(Command::FrcWriteUToolData(pl)),
                        None => Err(FrcError::Serialization("FRC_WriteUToolData fields did not decode".to_owned())),
                    }
                } else if bytes_eq(tag.as_slice(), key_t_read_uframe_data().as_slice()) {
                    match FrcReadUFrameData::from_pairs(&pairs) {
                        Some(pl) => Ok(Command::FrcReadUFrameData(pl)),
                        None => Err(FrcError::Serialization("FRC_ReadUFrameData fields did not decode".to_owned())),
                    }
                } else if bytes_eq(tag.as_slice(), key_t_write_uframe_data().as_slice()) {
                    match FrcWriteUFrameData::from_pairs(&pairs) {
                        Some(pl) => Ok(Command::FrcWriteUFrameData(pl)),
                        None => Err(FrcError::Serialization("FRC_WriteUFrameData fields did not decode".to_owned())),
                    }
                } else if bytes_eq(tag.as_slice(), key_t_reset().as_slice()) {
                    Ok(Command::FrcReset)
                } else if bytes_eq(tag.as_slice(), key_t_read_din().as_slice()) {
                    match FrcReadDIN::from_pairs(&pairs) {
                        Some(pl) => Ok(Command::FrcReadDIN(pl)),
                        None => Err(FrcError::Serialization("FRC_ReadDIN fields did not decode".to_owned())),
                    }
                } else if bytes_eq(tag.as_slice(), key_t_write_dout().as_slice()) {
                    match FrcWriteDOUT::from_pairs(&pairs) {
                        Some(pl) => Ok(Command::FrcWriteDOUT(pl)),
                        None => Err(FrcError::Serialization("FRC_WriteDOUT fields did not decode".to_owned())),
                    }
                } else if bytes_eq(tag.as_slice(), key_t_read_cartesian_position().as_slice()) {
                    match FrcReadCartesianPosition::from_pairs(&pairs) {
                        Some(pl) => Ok(Command::FrcReadCartesianPosition(pl)),
                        None => Err(FrcError::Serialization("FRC_ReadCartesianPosition fields did not decode".to_owned())),
                    }
                } else if bytes_eq(tag.as_slice(), key_t_read_joint_angles().as_slice()) {
                    match FrcReadJointAngles::from_pairs(&pairs) {
                        Some(pl) => Ok(Command::FrcReadJointAngles(pl)),
                        None => Err(FrcError::Serialization("FRC_ReadJointAngles fields did not decode".to_owned())),
                    }
                } else if bytes_eq(tag.as_slice(), key_t_read_tcp_speed().as_slice()) {
                    Ok(Command::FrcReadTCPSpeed)
                } else {
                    Err(FrcError::UnrecognizedPacket)
                };
                proof {
                    Command::lemma_tags_distinct();
                    assert(wire_obj(frame@) == Some(model_pairs(pairs@, 0)));
                    assert forall|p: Command| p.wf() && frame@ == p.spec_wire() implies (res matches Ok(q) && Command::pkt_eq(q, p)) by {
                        Command::lemma_wire_facts(p, frame@);
                        assert(gv == p.jval());
                        assert(model_pairs(pairs@, 0) == p.jpairs_full());
                        assert(tag@ == p.tag_name());
                        match p {
                            Command::FrcInitialize(pl) => {
                                pl.lemma_round_trip((k_tag_command(), JValM::Str(k_t_initialize())));
                            },
                            Command::FrcAbort => {
                            },
                            Command::FrcPause => {
                            },
                            Command::FrcReadError(pl) => {
                                pl.lemma_round_trip((k_tag_command(), JValM::Str(k_t_read_error())));
                            },
                            Command::FrcContinue => {
                            },
                            Command::FrcSetUFrameUTool(pl) => {
                                pl.lemma_round_trip((k_tag_command(), JValM::Str(k_t_set_uframe_utool())));
                            },
                            Command::FrcReadPositionRegister(pl) => {
                                pl.lemma_round_trip((k_tag_command(), JValM::Str(k_t_read_position_register())));
                            },
                            Command::FrcWritePositionRegister(pl) => {
                                pl.lemma_round_trip((k_tag_command(), JValM::Str(k_t_write_position_register_req())));
                            },
                            Command::FrcSetOverride(pl) => {
                                pl.lemma_round_trip((k_tag_command(), JValM::Str(k_t_set_override())));
                            },
                            Command::FrcGetStatus => {
                            },
                            Command::FrcGetUFrameUTool(pl) => {
                                pl.lemma_round_trip((k_tag_command(), JValM::Str(k_t_get_uframe_utool())));
                            },
                            Command::FrcWriteUToolData(pl) => {
                                pl.lemma_round_trip((k_tag_command(), JValM::Str(k_t_write_utool_data())));
                            },
                            Command::FrcReadUFrameData(pl) => {
                                pl.lemma_round_trip((k_tag_command(), JValM::Str(k_t_read_uframe_data())));
                            },
                            Command::FrcWriteUFrameData(pl) => {
                                pl.lemma_round_trip((k_tag_command(), JValM::Str(k_t_write_uframe_data())));
                            },
                            Command::FrcReset => {
                            },
                            Command::FrcReadDIN(pl) => {
                                pl.lemma_round_trip((k_tag_command(), JValM::Str(k_t_read_din())));
                            },
                            Command::FrcWriteDOUT(pl) => {
                                pl.lemma_round_trip((k_tag_command(), JValM::Str(k_t_write_dout())));
                            },
                            Command::FrcReadCartesianPosition(pl) => {
                                pl.lemma_round_trip((k_tag_command(), JValM::Str(k_t_read_cartesian_position())));
                            },
                            Command::FrcReadJointAngles(pl) => {
                                pl.lemma_round_trip((k_tag_command(), JValM::Str(k_t_read_joint_angles())));
                            },
                            Command::FrcReadTCPSpeed => {
                            },
                        }
                    }
                }
                res
            },
            _ => {
                proof {
                    assert forall|p: Command| p.wf() && frame@ == p.spec_wire() implies false by {
                        Command::lemma_wire_facts(p, frame@);
                    }
                }
                Err(FrcError::Serialization("frame is not a wire object".to_owned()))
            },
        }
    }
}

/// Responses to single-shot controller operations.
#[derive(Debug, Clone, PartialEq, Eq)]
pub enum CommandResponse {
    FrcInitialize(FrcInitializeResponse),
    FrcAbort(FrcAbortResponse),
    FrcPause(FrcPauseResponse),
    FrcContinue(FrcContinueResponse),
    FrcReadError(FrcReadErrorResponse),
    FrcSetUFrameUTool(FrcSetUFrameUToolResponse),
    FrcGetUFrameUTool(FrcGetUFrameUToolResponse),
    FrcGetStatus(FrcGetStatusResponse),
    FrcReadUFrameData(FrcReadUFrameDataResponse),
    FrcWriteUFrameData(FrcWriteUFrameDataResponse),
    FrcReadUToolData(FrcReadUToolDataResponse),
    FrcWriteUToolData(FrcWriteUToolData),
    FrcReadDIN(FrcReadDINResponse),
    FrcReadCartesianPosition(FrcReadCartesianPositionResponse),
    FrcWriteDOUT(FrcWriteDOUTResponse),
    FrcReadJointAngles(FrcReadJointAnglesResponse),
    FrcSetOverride(FrcSetOverrideResponse),
    FrcReadPositionRegister(FrcReadPositionRegisterResponse),
    FrcWritePositionRegister(FrcWritePositionRegisterResponse),
    FrcReset(FrcResetResponse),
    FrcReadTCPSpeed(FrcReadTCPSpeedResponse),
}

impl CommandResponse {
    /// The wire spelling of this packet's discriminant value.
    pub open spec fn tag_name(self) -> Seq<u8> {
        match self {
            CommandResponse::FrcInitialize(_) => k_t_initialize(),
            CommandResponse::FrcAbort(_) => k_t_abort(),
            CommandResponse::FrcPause(_) => k_t_pause(),
            CommandResponse::FrcContinue(_) => k_t_continue(),
            CommandResponse::FrcReadError(_) => k_t_read_error(),
            CommandResponse::FrcSetUFrameUTool(_) => k_t_set_uframe_utool(),
            CommandResponse::FrcGetUFrameUTool(_) => k_t_get_uframe_utool(),
            CommandResponse::FrcGetStatus(_) => k_t_get_status(),
            CommandResponse::FrcReadUFrameData(_) => k_t_read_uframe_data(),
            CommandResponse::FrcWriteUFrameData(_) => k_t_write_uframe_data(),
            CommandResponse::FrcReadUToolData(_) => k_t_read_utool_data(),
            CommandResponse::FrcWriteUToolData(_) => k_t_write_utool_data(),
            CommandResponse::FrcReadDIN(_) => k_t_read_din(),
            CommandResponse::FrcReadCartesianPosition(_) => k_t_read_cartesian_position(),
            CommandResponse::FrcWriteDOUT(_) => k_t_write_dout(),
            CommandResponse::FrcReadJointAngles(_) => k_t_read_joint_angles(),
            CommandResponse::FrcSetOverride(_) => k_t_set_override(),
            CommandResponse::FrcReadPositionRegister(_) => k_t_read_position_register(),
            CommandResponse::FrcWritePositionRegister(_) => k_t_write_position_register(),
            CommandResponse::FrcReset(_) => k_t_reset(),
            CommandResponse::FrcReadTCPSpeed(_) => k_t_read_tcp_speed(),
        }
    }

    /// The payload's wire pairs; empty for bare discriminants.
    pub open spec fn payload_pairs(self) -> Seq<(Seq<u8>, JValM)> {
        match self {
            CommandResponse::FrcInitialize(p) => p.jpairs(),
            CommandResponse::FrcAbort(p) => p.jpairs(),
            CommandResponse::FrcPause(p) => p.jpairs(),
            CommandResponse::FrcContinue(p) => p.jpairs(),
            CommandResponse::FrcReadError(p) => p.jpairs(),
            CommandResponse::FrcSetUFrameUTool(p) => p.jpairs(),
            CommandResponse::FrcGetUFrameUTool(p) => p.jpairs(),
            CommandResponse::FrcGetStatus(p) => p.jpairs(),
            CommandResponse::FrcReadUFrameData(p) => p.jpairs(),
            CommandResponse::FrcWriteUFrameData(p) => p.jpairs(),
            CommandResponse::FrcReadUToolData(p) => p.jpairs(),
            CommandResponse::FrcWriteUToolData(p) => p.jpairs(),
            CommandResponse::FrcReadDIN(p) => p.jpairs(),
            CommandResponse::FrcReadCartesianPosition(p) => p.jpairs(),
            CommandResponse::FrcWriteDOUT(p) => p.jpairs(),
            CommandResponse::FrcReadJointAngles(p) => p.jpairs(),
            CommandResponse::FrcSetOverride(p) => p.jpairs(),
            CommandResponse::FrcReadPositionRegister(p) => p.jpairs(),
            CommandResponse::FrcWritePositionRegister(p) => p.jpairs(),
            CommandResponse::FrcReset(p) => p.jpairs(),
            CommandResponse::FrcReadTCPSpeed(p) => p.jpairs(),
        }
    }

    pub open spec fn wf(self) -> bool {
        match self {
            CommandResponse::FrcInitialize(p) => p.wf(),
            CommandResponse::FrcAbort(p) => p.wf(),
            CommandResponse::FrcPause(p) => p.wf(),
            CommandResponse::FrcContinue(p) => p.wf(),
            CommandResponse::FrcReadError(p) => p.wf(),
            CommandResponse::FrcSetUFrameUTool(p) => p.wf(),
            CommandResponse::FrcGetUFrameUTool(p) => p.wf(),
            CommandResponse::FrcGetStatus(p) => p.wf(),
            CommandResponse::FrcReadUFrameData(p) => p.wf(),
            CommandResponse::FrcWriteUFrameData(p) => p.wf(),
            CommandResponse::FrcReadUToolData(p) => p.wf(),
            CommandResponse::FrcWriteUToolData(p) => p.wf(),
            CommandResponse::FrcReadDIN(p) => p.wf(),
            CommandResponse::FrcReadCartesianPosition(p) => p.wf(),
            CommandResponse::FrcWriteDOUT(p) => p.wf(),
            CommandResponse::FrcReadJointAngles(p) => p.wf(),
            CommandResponse::FrcSetOverride(p) => p.wf(),
            CommandResponse::FrcReadPositionRegister(p) => p.wf(),
            CommandResponse::FrcWritePositionRegister(p) => p.wf(),
            CommandResponse::FrcReset(p) => p.wf(),
            CommandResponse::FrcReadTCPSpeed(p) => p.wf(),
        }
    }

    /// The discriminant pair followed by the payload's pairs.
    pub open spec fn jpairs_full(self) -> Seq<(Seq<u8>, JValM)> {
        seq![(k_tag_command(), JValM::Str(self.tag_name()))] + self.payload_pairs()
    }

    pub open spec fn jval(self) -> JValM {
        JValM::Obj(self.jpairs_full())
    }

    /// The exact JSON text of this packet, without the frame terminator.
    pub open spec fn spec_wire(self) -> Seq<u8> {
        print_jval(self.jval())
    }

    /// Packet equality, comparing byte-string fields by contents.
    pub open spec fn pkt_eq(a: CommandResponse, b: CommandResponse) -> bool {
        match (a, b) {
            (CommandResponse::FrcReadError(x), CommandResponse::FrcReadError(y)) => x.error_id == y.error_id && x.count == y.count && x.error_data@ == y.error_data@,
            _ => a == b,
        }
    }

    /// Discriminant values this family recognizes.
    pub open spec fn known_tag(t: Seq<u8>) -> bool {
        ||| t == k_t_initialize()
        ||| t == k_t_abort()
        ||| t == k_t_pause()
        ||| t == k_t_continue()
        ||| t == k_t_read_error()
        ||| t == k_t_set_uframe_utool()
        ||| t == k_t_get_uframe_utool()
        ||| t == k_t_get_status()
        ||| t == k_t_read_uframe_data()
        ||| t == k_t_write_uframe_data()
        ||| t == k_t_read_utool_data()
        ||| t == k_t_write_utool_data()
        ||| t == k_t_read_din()
        ||| t == k_t_read_cartesian_position()
        ||| t == k_t_write_dout()
        ||| t == k_t_read_joint_angles()
        ||| t == k_t_set_override()
        ||| t == k_t_read_position_register()
        ||| t == k_t_write_position_register()
        ||| t == k_t_reset()
        ||| t == k_t_read_tcp_speed()
    }

    pub proof fn lemma_wf(self)
        requires
            self.wf(),
        ensures
            jval_wf(self.jval()),
    {
        k_tag_command_ok();
        match self {
            CommandResponse::FrcInitialize(p) => {
                k_t_initialize_ok();
                p.lemma_wf();
                assert(jval_wf(JValM::Str(k_t_initialize())));
                lemma_jpairs_wf_cons((k_tag_command(), JValM::Str(k_t_initialize())), p.jpairs());
            },
            CommandResponse::FrcAbort(p) => {
                k_t_abort_ok();
                p.lemma_wf();
                assert(jval_wf(JValM::Str(k_t_abort())));
                lemma_jpairs_wf_cons((k_tag_command(), JValM::Str(k_t_abort())), p.jpairs());
            },
            CommandResponse::FrcPause(p) => {
                k_t_pause_ok();
                p.lemma_wf();
                assert(jval_wf(JValM::Str(k_t_pause())));
                lemma_jpairs_wf_cons((k_tag_command(), JValM::Str(k_t_pause())), p.jpairs());
            },
            CommandResponse::FrcContinue(p) => {
                k_t_continue_ok();
                p.lemma_wf();
                assert(jval_wf(JValM::Str(k_t_continue())));
                lemma_jpairs_wf_cons((k_tag_command(), JValM::Str(k_t_continue())), p.jpairs());
            },
            CommandResponse::FrcReadError(p) => {
                k_t_read_error_ok();
                p.lemma_wf();
                assert(jval_wf(JValM::Str(k_t_read_error())));
                lemma_jpairs_wf_cons((k_tag_command(), JValM::Str(k_t_read_error())), p.jpairs());
            },
            CommandResponse::FrcSetUFrameUTool(p) => {
                k_t_set_uframe_utool_ok();
                p.lemma_wf();
                assert(jval_wf(JValM::Str(k_t_set_uframe_utool())));
                lemma_jpairs_wf_cons((k_tag_command(), JValM::Str(k_t_set_uframe_utool())), p.jpairs());
            },
            CommandResponse::FrcGetUFrameUTool(p) => {
                k_t_get_uframe_utool_ok();
                p.lemma_wf();
                assert(jval_wf(JValM::Str(k_t_get_uframe_utool())));
                lemma_jpairs_wf_cons((k_tag_command(), JValM::Str(k_t_get_uframe_utool())), p.jpairs());
            },
            CommandResponse::FrcGetStatus(p) => {
                k_t_get_status_ok();
                p.lemma_wf();
                assert(jval_wf(JValM::Str(k_t_get_status())));
                lemma_jpairs_wf_cons((k_tag_command(), JValM::Str(k_t_get_status())), p.jpairs());
            },
            CommandResponse::FrcReadUFrameData(p) => {
                k_t_read_uframe_data_ok();
                p.lemma_wf();
                assert(jval_wf(JValM::Str(k_t_read_uframe_data())));
                lemma_jpairs_wf_cons((k_tag_command(), JValM::Str(k_t_read_uframe_data())), p.jpairs());
            },
            CommandResponse::FrcWriteUFrameData(p) => {
                k_t_write_uframe_data_ok();
                p.lemma_wf();
                assert(jval_wf(JValM::Str(k_t_write_uframe_data())));
                lemma_jpairs_wf_cons((k_tag_command(), JValM::Str(k_t_write_uframe_data())), p.jpairs());
            },
            CommandResponse::FrcReadUToolData(p) => {
                k_t_read_utool_data_ok();
                p.lemma_wf();
                assert(jval_wf(JValM::Str(k_t_read_utool_data())));
                lemma_jpairs_wf_cons((k_tag_command(), JValM::Str(k_t_read_utool_data())), p.jpairs());
            },
            CommandResponse::FrcWriteUToolData(p) => {
                k_t_write_utool_data_ok();
                p.lemma_wf();
                assert(jval_wf(JValM::Str(k_t_write_utool_data())));
                lemma_jpairs_wf_cons((k_tag_command(), JValM::Str(k_t_write_utool_data())), p.jpairs());
            },
            CommandResponse::FrcReadDIN(p) => {
                k_t_read_din_ok();
                p.lemma_wf();
                assert(jval_wf(JValM::Str(k_t_read_din())));
                lemma_jpairs_wf_cons((k_tag_command(), JValM::Str(k_t_read_din())), p.jpairs());
            },
            CommandResponse::FrcReadCartesianPosition(p) => {
                k_t_read_cartesian_position_ok();
                p.lemma_wf();
                assert(jval_wf(JValM::Str(k_t_read_cartesian_position())));
                lemma_jpairs_wf_cons((k_tag_command(), JValM::Str(k_t_read_cartesian_position())), p.jpairs());
            },
            CommandResponse::FrcWriteDOUT(p) => {
                k_t_write_dout_ok();
                p.lemma_wf();
                assert(jval_wf(JValM::Str(k_t_write_dout())));
                lemma_jpairs_wf_cons((k_tag_command(), JValM::Str(k_t_write_dout())), p.jpairs());
            },
            CommandResponse::FrcReadJointAngles(p) => {
                k_t_read_joint_angles_ok();
                p.lemma_wf();
                assert(jval_wf(JValM::Str(k_t_read_joint_angles())));
                lemma_jpairs_wf_cons((k_tag_command(), JValM::Str(k_t_read_joint_angles())), p.jpairs());
            },
            CommandResponse::FrcSetOverride(p) => {
                k_t_set_override_ok();
                p.lemma_wf();
                assert(jval_wf(JValM::Str(k_t_set_override())));
                lemma_jpairs_wf_cons((k_tag_command(), JValM::Str(k_t_set_override())), p.jpairs());
            },
            CommandResponse::FrcReadPositionRegister(p) => {
                k_t_read_position_register_ok();
                p.lemma_wf();
                assert(jval_wf(JValM::Str(k_t_read_position_register())));
                lemma_jpairs_wf_cons((k_tag_command(), JValM::Str(k_t_read_position_register())), p.jpairs());
            },
            CommandResponse::FrcWritePositionRegister(p) => {
                k_t_write_position_register_ok();
                p.lemma_wf();
                assert(jval_wf(JValM::Str(k_t_write_position_register())));
                lemma_jpairs_wf_cons((k_tag_command(), JValM::Str(k_t_write_position_register())), p.jpairs());
            },
            CommandResponse::FrcReset(p) => {
                k_t_reset_ok();
                p.lemma_wf();
                assert(jval_wf(JValM::Str(k_t_reset())));
                lemma_jpairs_wf_cons((k_tag_command(), JValM::Str(k_t_reset())), p.jpairs());
            },
            CommandResponse::FrcReadTCPSpeed(p) => {
                k_t_read_tcp_speed_ok();
                p.lemma_wf();
                assert(jval_wf(JValM::Str(k_t_read_tcp_speed())));
                lemma_jpairs_wf_cons((k_tag_command(), JValM::Str(k_t_read_tcp_speed())), p.jpairs());
            },
        }
    }

    /// What the printed form of a packet parses to, and the
    /// discriminant its pairs carry.
    pub proof fn lemma_wire_facts(p: CommandResponse, s: Seq<u8>)
        requires
            p.wf(),
            s == p.spec_wire(),
        ensures
            parse_jval(s, 0, s.len() as nat) == Some((p.jval(), s.len() as int)),
            sget_str(p.jpairs_full(), k_tag_command()) == Some(p.tag_name()),
    {
        p.lemma_wf();
        lemma_jval_size_le_print(p.jval());
        assert(s.subrange(0, s.len() as int) =~= s);
        lemma_parse_print_jval(p.jval(), s, 0, s.len() as nat);
        let m = p.jpairs_full();
        assert(m[0] == (k_tag_command(), JValM::Str(p.tag_name())));
        lemma_slookup_at(m, k_tag_command(), 0);
    }

    /// No two discriminant spellings of this family coincide.
    pub proof fn lemma_tags_distinct()
        ensures
            k_t_initialize() != k_t_abort(),
            k_t_initialize() != k_t_pause(),
            k_t_initialize() != k_t_continue(),
            k_t_initialize() != k_t_read_error(),
            k_t_initialize() != k_t_set_uframe_utool(),
            k_t_initialize() != k_t_get_uframe_utool(),
            k_t_initialize() != k_t_get_status(),
            k_t_initialize() != k_t_read_uframe_data(),
            k_t_initialize() != k_t_write_uframe_data(),
            k_t_initialize() != k_t_read_utool_data(),
            k_t_initialize() != k_t_write_utool_data(),
            k_t_initialize() != k_t_read_din(),
            k_t_initialize() != k_t_read_cartesian_position(),
            k_t_initialize() != k_t_write_dout(),
            k_t_initialize() != k_t_read_joint_angles(),
            k_t_initialize() != k_t_set_override(),
            k_t_initialize() != k_t_read_position_register(),
            k_t_initialize() != k_t_write_position_register(),
            k_t_initialize() != k_t_reset(),
            k_t_initialize() != k_t_read_tcp_speed(),
            k_t_abort() != k_t_pause(),
            k_t_abort() != k_t_continue(),
            k_t_abort() != k_t_read_error(),
            k_t_abort() != k_t_set_uframe_utool(),
            k_t_abort() != k_t_get_uframe_utool(),
            k_t_abort() != k_t_get_status(),
            k_t_abort() != k_t_read_uframe_data(),
            k_t_abort() != k_t_write_uframe_data(),
            k_t_abort() != k_t_read_utool_data(),
            k_t_abort() != k_t_write_utool_data(),
            k_t_abort() != k_t_read_din(),
            k_t_abort() != k_t_read_cartesian_position(),
            k_t_abort() != k_t_write_dout(),
            k_t_abort() != k_t_read_joint_angles(),
            k_t_abort() != k_t_set_override(),
            k_t_abort() != k_t_read_position_register(),
            k_t_abort() != k_t_write_position_register(),
            k_t_abort() != k_t_reset(),
            k_t_abort() != k_t_read_tcp_speed(),
            k_t_pause() != k_t_continue(),
            k_t_pause() != k_t_read_error(),
            k_t_pause() != k_t_set_uframe_utool(),
            k_t_pause() != k_t_get_uframe_utool(),
            k_t_pause() != k_t_get_status(),
            k_t_pause() != k_t_read_uframe_data(),
            k_t_pause() != k_t_write_uframe_data(),
            k_t_pause() != k_t_read_utool_data(),
            k_t_pause() != k_t_write_utool_data(),
            k_t_pause() != k_t_read_din(),
            k_t_pause() != k_t_read_cartesian_position(),
            k_t_pause() != k_t_write_dout(),
            k_t_pause() != k_t_read_joint_angles(),
            k_t_pause() != k_t_set_override(),
            k_t_pause() != k_t_read_position_register(),
            k_t_pause() != k_t_write_position_register(),
            k_t_pause() != k_t_reset(),
            k_t_pause() != k_t_read_tcp_speed(),
            k_t_continue() != k_t_read_error(),
            k_t_continue() != k_t_set_uframe_utool(),
            k_t_continue() != k_t_get_uframe_utool(),
            k_t_continue() != k_t_get_status(),
            k_t_continue() != k_t_read_uframe_data(),
            k_t_continue() != k_t_write_uframe_data(),
            k_t_continue() != k_t_read_utool_data(),
            k_t_continue() != k_t_write_utool_data(),
            k_t_continue() != k_t_read_din(),
            k_t_continue() != k_t_read_cartesian_position(),
            k_t_continue() != k_t_write_dout(),
            k_t_continue() != k_t_read_joint_angles(),
            k_t_continue() != k_t_set_override(),
            k_t_continue() != k_t_read_position_register(),
            k_t_continue() != k_t_write_position_register(),
            k_t_continue() != k_t_reset(),
            k_t_continue() != k_t_read_tcp_speed(),
            k_t_read_error() != k_t_set_uframe_utool(),
            k_t_read_error() != k_t_get_uframe_utool(),
            k_t_read_error() != k_t_get_status(),
            k_t_read_error() != k_t_read_uframe_data(),
            k_t_read_error() != k_t_write_uframe_data(),
            k_t_read_error() != k_t_read_utool_data(),
            k_t_read_error() != k_t_write_utool_data(),
            k_t_read_error() != k_t_read_din(),
            k_t_read_error() != k_t_read_cartesian_position(),
            k_t_read_error() != k_t_write_dout(),
            k_t_read_error() != k_t_read_joint_angles(),
            k_t_read_error() != k_t_set_override(),
            k_t_read_error() != k_t_read_position_register(),
            k_t_read_error() != k_t_write_position_register(),
            k_t_read_error() != k_t_reset(),
            k_t_read_error() != k_t_read_tcp_speed(),
            k_t_set_uframe_utool() != k_t_get_uframe_utool(),
            k_t_set_uframe_utool() != k_t_get_status(),
            k_t_set_uframe_utool() != k_t_read_uframe_data(),
            k_t_set_uframe_utool() != k_t_write_uframe_data(),
            k_t_set_uframe_utool() != k_t_read_utool_data(),
            k_t_set_uframe_utool() != k_t_write_utool_data(),
            k_t_set_uframe_utool() != k_t_read_din(),
            k_t_set_uframe_utool() != k_t_read_cartesian_position(),
            k_t_set_uframe_utool() != k_t_write_dout(),
            k_t_set_uframe_utool() != k_t_read_joint_angles(),
            k_t_set_uframe_utool() != k_t_set_override(),
            k_t_set_uframe_utool() != k_t_read_position_register(),
            k_t_set_uframe_utool() != k_t_write_position_register(),
            k_t_set_uframe_utool() != k_t_reset(),
            k_t_set_uframe_utool() != k_t_read_tcp_speed(),
            k_t_get_uframe_utool() != k_t_get_status(),
            k_t_get_uframe_utool() != k_t_read_uframe_data(),
            k_t_get_uframe_utool() != k_t_write_uframe_data(),
            k_t_get_uframe_utool() != k_t_read_utool_data(),
            k_t_get_uframe_utool() != k_t_write_utool_data(),
            k_t_get_uframe_utool() != k_t_read_din(),
            k_t_get_uframe_utool() != k_t_read_cartesian_position(),
            k_t_get_uframe_utool() != k_t_write_dout(),
            k_t_get_uframe_utool() != k_t_read_joint_angles(),
            k_t_get_uframe_utool() != k_t_set_override(),
            k_t_get_uframe_utool() != k_t_read_position_register(),
            k_t_get_uframe_utool() != k_t_write_position_register(),
            k_t_get_uframe_utool() != k_t_reset(),
            k_t_get_uframe_utool() != k_t_read_tcp_speed(),
            k_t_get_status() != k_t_read_uframe_data(),
            k_t_get_status() != k_t_write_uframe_data(),
            k_t_get_status() != k_t_read_utool_data(),
            k_t_get_status() != k_t_write_utool_data(),
            k_t_get_status() != k_t_read_din(),
            k_t_get_status() != k_t_read_cartesian_position(),
            k_t_get_status() != k_t_write_dout(),
            k_t_get_status() != k_t_read_joint_angles(),
            k_t_get_status() != k_t_set_override(),
            k_t_get_status() != k_t_read_position_register(),
            k_t_get_status() != k_t_write_position_register(),
            k_t_get_status() != k_t_reset(),
            k_t_get_status() != k_t_read_tcp_speed(),
            k_t_read_uframe_data() != k_t_write_uframe_data(),
            k_t_read_uframe_data() != k_t_read_utool_data(),
            k_t_read_uframe_data() != k_t_write_utool_data(),
            k_t_read_uframe_data() != k_t_read_din(),
            k_t_read_uframe_data() != k_t_read_cartesian_position(),
            k_t_read_uframe_data() != k_t_write_dout(),
            k_t_read_uframe_data() != k_t_read_joint_angles(),
            k_t_read_uframe_data() != k_t_set_override(),
            k_t_read_uframe_data() != k_t_read_position_register(),
            k_t_read_uframe_data() != k_t_write_position_register(),
            k_t_read_uframe_data() != k_t_reset(),
            k_t_read_uframe_data() != k_t_read_tcp_speed(),
            k_t_write_uframe_data() != k_t_read_utool_data(),
            k_t_write_uframe_data() != k_t_write_utool_data(),
            k_t_write_uframe_data() != k_t_read_din(),
            k_t_write_uframe_data() != k_t_read_cartesian_position(),
            k_t_write_uframe_data() != k_t_write_dout(),
            k_t_write_uframe_data() != k_t_read_joint_angles(),
            k_t_write_uframe_data() != k_t_set_override(),
            k_t_write_uframe_data() != k_t_read_position_register(),
            k_t_write_uframe_data() != k_t_write_position_register(),
            k_t_write_uframe_data() != k_t_reset(),
            k_t_write_uframe_data() != k_t_read_tcp_speed(),
            k_t_read_utool_data() != k_t_write_utool_data(),
            k_t_read_utool_data() != k_t_read_din(),
            k_t_read_utool_data() != k_t_read_cartesian_position(),
            k_t_read_utool_data() != k_t_write_dout(),
            k_t_read_utool_data() != k_t_read_joint_angles(),
            k_t_read_utool_data() != k_t_set_override(),
            k_t_read_utool_data() != k_t_read_position_register(),
            k_t_read_utool_data() != k_t_write_position_register(),
            k_t_read_utool_data() != k_t_reset(),
            k_t_read_utool_data() != k_t_read_tcp_speed(),
            k_t_write_utool_data() != k_t_read_din(),
            k_t_write_utool_data() != k_t_read_cartesian_position(),
            k_t_write_utool_data() != k_t_write_dout(),
            k_t_write_utool_data() != k_t_read_joint_angles(),
            k_t_write_utool_data() != k_t_set_override(),
            k_t_write_utool_data() != k_t_read_position_register(),
            k_t_write_utool_data() != k_t_write_position_register(),
            k_t_write_utool_data() != k_t_reset(),
            k_t_write_utool_data() != k_t_read_tcp_speed(),
            k_t_read_din() != k_t_read_cartesian_position(),
            k_t_read_din() != k_t_write_dout(),
            k_t_read_din() != k_t_read_joint_angles(),
            k_t_read_din() != k_t_set_override(),
            k_t_read_din() != k_t_read_position_register(),
            k_t_read_din() != k_t_write_position_register(),
            k_t_read_din() != k_t_reset(),
            k_t_read_din() != k_t_read_tcp_speed(),
            k_t_read_cartesian_position() != k_t_write_dout(),
            k_t_read_cartesian_position() != k_t_read_joint_angles(),
            k_t_read_cartesian_position() != k_t_set_override(),
            k_t_read_cartesian_position() != k_t_read_position_register(),
            k_t_read_cartesian_position() != k_t_write_position_register(),
            k_t_read_cartesian_position() != k_t_reset(),
            k_t_read_cartesian_position() != k_t_read_tcp_speed(),
            k_t_write_dout() != k_t_read_joint_angles(),
            k_t_write_dout() != k_t_set_override(),
            k_t_write_dout() != k_t_read_position_register(),
            k_t_write_dout() != k_t_write_position_register(),
            k_t_write_dout() != k_t_reset(),
            k_t_write_dout() != k_t_read_tcp_speed(),
            k_t_read_joint_angles() != k_t_set_override(),
            k_t_read_joint_angles() != k_t_read_position_register(),
            k_t_read_joint_angles() != k_t_write_position_register(),
            k_t_read_joint_angles() != k_t_reset(),
            k_t_read_joint_angles() != k_t_read_tcp_speed(),
            k_t_set_override() != k_t_read_position_register(),
            k_t_set_override() != k_t_write_position_register(),
            k_t_set_override() != k_t_reset(),
            k_t_set_override() != k_t_read_tcp_speed(),
            k_t_read_position_register() != k_t_write_position_register(),
            k_t_read_position_register() != k_t_reset(),
            k_t_read_position_register() != k_t_read_tcp_speed(),
            k_t_write_position_register() != k_t_reset(),
            k_t_write_position_register() != k_t_read_tcp_speed(),
            k_t_reset() != k_t_read_tcp_speed(),
    {
        assert(k_t_initialize().len() != k_t_abort().len());
        assert(k_t_initialize().len() != k_t_pause().len());
        assert(k_t_initialize().len() != k_t_continue().len());
        assert(k_t_initialize().len() != k_t_read_error().len());
        assert(k_t_initialize().len() != k_t_set_uframe_utool().len());
        assert(k_t_initialize().len() != k_t_get_uframe_utool().len());
        assert(k_t_initialize().len() != k_t_get_status().len());
        assert(k_t_initialize().len() != k_t_read_uframe_data().len());
        assert(k_t_initialize().len() != k_t_write_uframe_data().len());
        assert(k_t_initialize().len() != k_t_read_utool_data().len());
        assert(k_t_initialize().len() != k_t_write_utool_data().len());
        assert(k_t_initialize().len() != k_t_read_din().len());
        assert(k_t_initialize().len() != k_t_read_cartesian_position().len());
        assert(k_t_initialize().len() != k_t_write_dout().len());
        assert(k_t_initialize().len() != k_t_read_joint_angles().len());
        assert(k_t_initialize().len() != k_t_set_override().len());
        assert(k_t_initialize().len() != k_t_read_position_register().len());
        assert(k_t_initialize().len() != k_t_write_position_register().len());
        assert(k_t_initialize().len() != k_t_reset().len());
        assert(k_t_initialize().len() != k_t_read_tcp_speed().len());
        assert(k_t_abort()[4] != k_t_pause()[4]);
        assert(k_t_abort().len() != k_t_continue().len());
        assert(k_t_abort().len() != k_t_read_error().len());
        assert(k_t_abort().len() != k_t_set_uframe_utool().len());
        assert(k_t_abort().len() != k_t_get_uframe_utool().len());
        assert(k_t_abort().len() != k_t_get_status().len());
        assert(k_t_abort().len() != k_t_read_uframe_data().len());
        assert(k_t_abort().len() != k_t_write_uframe_data().len());
        assert(k_t_abort().len() != k_t_read_utool_data().len());
        assert(k_t_abort().len() != k_t_write_utool_data().len());
        assert(k_t_abort().len() != k_t_read_din().len());
        assert(k_t_abort().len() != k_t_read_cartesian_position().len());
        assert(k_t_abort().len() != k_t_write_dout().len());
        assert(k_t_abort().len() != k_t_read_joint_angles().len());
        assert(k_t_abort().len() != k_t_set_override().len());
        assert(k_t_abort().len() != k_t_read_position_register().len());
        assert(k_t_abort().len() != k_t_write_position_register().len());
        assert(k_t_abort()[4] != k_t_reset()[4]);
        assert(k_t_abort().len() != k_t_read_tcp_speed().len());
        assert(k_t_pause().len() != k_t_continue().len());
        assert(k_t_pause().len() != k_t_read_error().len());
        assert(k_t_pause().len() != k_t_set_uframe_utool().len());
        assert(k_t_pause().len() != k_t_get_uframe_utool().len());
        assert(k_t_pause().len() != k_t_get_status().len());
        assert(k_t_pause().len() != k_t_read_uframe_data().len());
        assert(k_t_pause().len() != k_t_write_uframe_data().len());
        assert(k_t_pause().len() != k_t_read_utool_data().len());
        assert(k_t_pause().len() != k_t_write_utool_data().len());
        assert(k_t_pause().len() != k_t_read_din().len());
        assert(k_t_pause().len() != k_t_read_cartesian_position().len());
        assert(k_t_pause().len() != k_t_write_dout().len());
        assert(k_t_pause().len() != k_t_read_joint_angles().len());
        assert(k_t_pause().len() != k_t_set_override().len());
        assert(k_t_pause().len() != k_t_read_position_register().len());
        assert(k_t_pause().len() != k_t_write_position_register().len());
        assert(k_t_pause()[4] != k_t_reset()[4]);
        assert(k_t_pause().len() != k_t_read_tcp_speed().len());
        assert(k_t_continue().len() != k_t_read_error().len());
        assert(k_t_continue().len() != k_t_set_uframe_utool().len());
        assert(k_t_continue().len() != k_t_get_uframe_utool().len());
        assert(k_t_continue().len() != k_t_get_status().len());
        assert(k_t_continue().len() != k_t_read_uframe_data().len());
        assert(k_t_continue().len() != k_t_write_uframe_data().len());
        assert(k_t_continue().len() != k_t_read_utool_data().len());
        assert(k_t_continue().len() != k_t_write_utool_data().len());
        assert(k_t_continue().len() != k_t_read_din().len());
        assert(k_t_continue().len() != k_t_read_cartesian_position().len());
        assert(k_t_continue().len() != k_t_write_dout().len());
        assert(k_t_continue().len() != k_t_read_joint_angles().len());
        assert(k_t_continue().len() != k_t_set_override().len());
        assert(k_t_continue().len() != k_t_read_position_register().len());
        assert(k_t_continue().len() != k_t_write_position_register().len());
        assert(k_t_continue().len() != k_t_reset().len());
        assert(k_t_continue().len() != k_t_read_tcp_speed().len());
        assert(k_t_read_error().len() != k_t_set_uframe_utool().len());
        assert(k_t_read_error().len() != k_t_get_uframe_utool().len());
        assert(k_t_read_error()[4] != k_t_get_status()[4]);
        assert(k_t_read_error().len() != k_t_read_uframe_data().len());
        assert(k_t_read_error().len() != k_t_write_uframe_data().len());
        assert(k_t_read_error().len() != k_t_read_utool_data().len());
        assert(k_t_read_error().len() != k_t_write_utool_data().len());
        assert(k_t_read_error().len() != k_t_read_din().len());
        assert(k_t_read_error().len() != k_t_read_cartesian_position().len());
        assert(k_t_read_error()[4] != k_t_write_dout()[4]);
        assert(k_t_read_error().len() != k_t_read_joint_angles().len());
        assert(k_t_read_error().len() != k_t_set_override().len());
        assert(k_t_read_error().len() != k_t_read_position_register().len());
        assert(k_t_read_error().len() != k_t_write_position_register().len());
        assert(k_t_read_error().len() != k_t_reset().len());
        assert(k_t_read_error().len() != k_t_read_tcp_speed().len());
        assert(k_t_set_uframe_utool()[4] != k_t_get_uframe_utool()[4]);
        assert(k_t_set_uframe_utool().len() != k_t_get_status().len());
        assert(k_t_set_uframe_utool()[4] != k_t_read_uframe_data()[4]);
        assert(k_t_set_uframe_utool().len() != k_t_write_uframe_data().len());
        assert(k_t_set_uframe_utool().len() != k_t_read_utool_data().len());
        assert(k_t_set_uframe_utool()[4] != k_t_write_utool_data()[4]);
        assert(k_t_set_uframe_utool().len() != k_t_read_din().len());
        assert(k_t_set_uframe_utool().len() != k_t_read_cartesian_position().len());
        assert(k_t_set_uframe_utool().len() != k_t_write_dout().len());
        assert(k_t_set_uframe_utool().len() != k_t_read_joint_angles().len());
        assert(k_t_set_uframe_utool().len() != k_t_set_override().len());
        assert(k_t_set_uframe_utool().len() != k_t_read_position_register().len());
        assert(k_t_set_uframe_utool().len() != k_t_write_position_register().len());
        assert(k_t_set_uframe_utool().len() != k_t_reset().len());
        assert(k_t_set_uframe_utool().len() != k_t_read_tcp_speed().len());
        assert(k_t_get_uframe_utool().len() != k_t_get_status().len());
        assert(k_t_get_uframe_utool()[4] != k_t_read_uframe_data()[4]);
        assert(k_t_get_uframe_utool().len() != k_t_write_uframe_data().len());
        assert(k_t_get_uframe_utool().len() != k_t_read_utool_data().len());
        assert(k_t_get_uframe_utool()[4] != k_t_write_utool_data()[4]);
        assert(k_t_get_uframe_utool().len() != k_t_read_din().len());
        assert(k_t_get_uframe_utool().len() != k_t_read_cartesian_position().len());
        assert(k_t_get_uframe_utool().len() != k_t_write_dout().len());
        assert(k_t_get_uframe_utool().len() != k_t_read_joint_angles().len());
        assert(k_t_get_uframe_utool().len() != k_t_set_override().len());
        assert(k_t_get_uframe_utool().len() != k_t_read_position_register().len());
        assert(k_t_get_uframe_utool().len() != k_t_write_position_register().len());
        assert(k_t_get_uframe_utool().len() != k_t_reset().len());
        assert(k_t_get_uframe_utool().len() != k_t_read_tcp_speed().len());
        assert(k_t_get_status().len() != k_t_read_uframe_data().len());
        assert(k_t_get_status().len() != k_t_write_uframe_data().len());
        assert(k_t_get_status().len() != k_t_read_utool_data().len());
        assert(k_t_get_status().len() != k_t_write_utool_data().len());
        assert(k_t_get_status().len() != k_t_read_din().len());
        assert(k_t_get_status().len() != k_t_read_cartesian_position().len());
        assert(k_t_get_status()[4] != k_t_write_dout()[4]);
        assert(k_t_get_status().len() != k_t_read_joint_angles().len());
        assert(k_t_get_status().len() != k_t_set_override().len());
        assert(k_t_get_status().len() != k_t_read_position_register().len());
        assert(k_t_get_status().len() != k_t_write_position_register().len());
        assert(k_t_get_status().len() != k_t_reset().len());
        assert(k_t_get_status().len() != k_t_read_tcp_speed().len());
        assert(k_t_read_uframe_data().len() != k_t_write_uframe_data().len());
        assert(k_t_read_uframe_data().len() != k_t_read_utool_data().len());
        assert(k_t_read_uframe_data()[4] != k_t_write_utool_data()[4]);
        assert(k_t_read_uframe_data().len() != k_t_read_din().len());
        assert(k_t_read_uframe_data().len() != k_t_read_cartesian_position().len());
        assert(k_t_read_uframe_data().len() != k_t_write_dout().len());
        assert(k_t_read_uframe_data().len() != k_t_read_joint_angles().len());
        assert(k_t_read_uframe_data().len() != k_t_set_override().len());
        assert(k_t_read_uframe_data().len() != k_t_read_position_register().len());
        assert(k_t_read_uframe_data().len() != k_t_write_position_register().len());
        assert(k_t_read_uframe_data().len() != k_t_reset().len());
        assert(k_t_read_uframe_data().len() != k_t_read_tcp_speed().len());
        assert(k_t_write_uframe_data().len() != k_t_read_utool_data().len());
        assert(k_t_write_uframe_data().len() != k_t_write_utool_data().len());
        assert(k_t_write_uframe_data().len() != k_t_read_din().len());
        assert(k_t_write_uframe_data().len() != k_t_read_cartesian_position().len());
        assert(k_t_write_uframe_data().len() != k_t_write_dout().len());
        assert(k_t_write_uframe_data()[4] != k_t_read_joint_angles()[4]);
        assert(k_t_write_uframe_data().len() != k_t_set_override().len());
        assert(k_t_write_uframe_data().len() != k_t_read_position_register().len());
        assert(k_t_write_uframe_data().len() != k_t_write_position_register().len());
        assert(k_t_write_uframe_data().len() != k_t_reset().len());
        assert(k_t_write_uframe_data().len() != k_t_read_tcp_speed().len());
        assert(k_t_read_utool_data().len() != k_t_write_utool_data().len());
        assert(k_t_read_utool_data().len() != k_t_read_din().len());
        assert(k_t_read_utool_data().len() != k_t_read_cartesian_position().len());
        assert(k_t_read_utool_data().len() != k_t_write_dout().len());
        assert(k_t_read_utool_data().len() != k_t_read_joint_angles().len());
        assert(k_t_read_utool_data().len() != k_t_set_override().len());
        assert(k_t_read_utool_data().len() != k_t_read_position_register().len());
        assert(k_t_read_utool_data().len() != k_t_write_position_register().len());
        assert(k_t_read_utool_data().len() != k_t_reset().len());
        assert(k_t_read_utool_data().len() != k_t_read_tcp_speed().len());
        assert(k_t_write_utool_data().len() != k_t_read_din().len());
        assert(k_t_write_utool_data().len() != k_t_read_cartesian_position().len());
        assert(k_t_write_utool_data().len() != k_t_write_dout().len());
        assert(k_t_write_utool_data().len() != k_t_read_joint_angles().len());
        assert(k_t_write_utool_data().len() != k_t_set_override().len());
        assert(k_t_write_utool_data().len() != k_t_read_position_register().len());
        assert(k_t_write_utool_data().len() != k_t_write_position_register().len());
        assert(k_t_write_utool_data().len() != k_t_reset().len());
        assert(k_t_write_utool_data().len() != k_t_read_tcp_speed().len());
        assert(k_t_read_din().len() != k_t_read_cartesian_position().len());
        assert(k_t_read_din().len() != k_t_write_dout().len());
        assert(k_t_read_din().len() != k_t_read_joint_angles().len());
        assert(k_t_read_din().len() != k_t_set_override().len());
        assert(k_t_read_din().len() != k_t_read_position_register().len());
        assert(k_t_read_din().len() != k_t_write_position_register().len());
        assert(k_t_read_din().len() != k_t_reset().len());
        assert(k_t_read_din().len() != k_t_read_tcp_speed().len());
        assert(k_t_read_cartesian_position().len() != k_t_write_dout().len());
        assert(k_t_read_cartesian_position().len() != k_t_read_joint_angles().len());
        assert(k_t_read_cartesian_position().len() != k_t_set_override().len());
        assert(k_t_read_cartesian_position().len() != k_t_read_position_register().len());
        assert(k_t_read_cartesian_position()[4] != k_t_write_position_register()[4]);
        assert(k_t_read_cartesian_position().len() != k_t_reset().len());
        assert(k_t_read_cartesian_position().len() != k_t_read_tcp_speed().len());
        assert(k_t_write_dout().len() != k_t_read_joint_angles().len());
        assert(k_t_write_dout().len() != k_t_set_override().len());
        assert(k_t_write_dout().len() != k_t_read_position_register().len());
        assert(k_t_write_dout().len() != k_t_write_position_register().len());
        assert(k_t_write_dout().len() != k_t_reset().len());
        assert(k_t_write_dout().len() != k_t_read_tcp_speed().len());
        assert(k_t_read_joint_angles().len() != k_t_set_override().len());
        assert(k_t_read_joint_angles().len() != k_t_read_position_register().len());
        assert(k_t_read_joint_angles().len() != k_t_write_position_register().len());
        assert(k_t_read_joint_angles().len() != k_t_reset().len());
        assert(k_t_read_joint_angles().len() != k_t_read_tcp_speed().len());
        assert(k_t_set_override().len() != k_t_read_position_register().len());
        assert(k_t_set_override().len() != k_t_write_position_register().len());
        assert(k_t_set_override().len() != k_t_reset().len());
        assert(k_t_set_override().len() != k_t_read_tcp_speed().len());
        assert(k_t_read_position_register().len() != k_t_write_position_register().len());
        assert(k_t_read_position_register().len() != k_t_reset().len());
        assert(k_t_read_position_register().len() != k_t_read_tcp_speed().len());
        assert(k_t_write_position_register().len() != k_t_reset().len());
        assert(k_t_write_position_register().len() != k_t_read_tcp_speed().len());
        assert(k_t_reset().len() != k_t_read_tcp_speed().len());
    }

    /// The wire bytes of this packet: its JSON text followed by the
    /// carriage-return line-feed frame terminator.
    pub fn encode(&self) -> (r: Vec<u8>)
        requires
            self.wf(),
        ensures
            r@ == self.spec_wire() + seq![13u8, 10u8],
    {
        let mut pairs: Vec<(Vec<u8>, JVal)> = Vec::new();
        match self {
            CommandResponse::FrcInitialize(p) => {
                push_field_str(&mut pairs, key_tag_command(), key_t_initialize().as_slice());
                p.push_pairs(&mut pairs);
                proof {
                    assert(model_pairs(pairs@, 0) =~= self.jpairs_full());
                }
            },
            CommandResponse::FrcAbort(p) => {
                push_field_str(&mut pairs, key_tag_command(), key_t_abort().as_slice());
                p.push_pairs(&mut pairs);
                proof {
                    assert(model_pairs(pairs@, 0) =~= self.jpairs_full());
                }
            },
            CommandResponse::FrcPause(p) => {
                push_field_str(&mut pairs, key_tag_command(), key_t_pause().as_slice());
                p.push_pairs(&mut pairs);
                proof {
                    assert(model_pairs(pairs@, 0) =~= self.jpairs_full());
                }
            },
            CommandResponse::FrcContinue(p) => {
                push_field_str(&mut pairs, key_tag_command(), key_t_continue().as_slice());
                p.push_pairs(&mut pairs);
                proof {
                    assert(model_pairs(pairs@, 0) =~= self.jpairs_full());
                }
            },
            CommandResponse::FrcReadError(p) => {
                push_field_str(&mut pairs, key_tag_command(), key_t_read_error().as_slice());
                p.push_pairs(&mut pairs);
                proof {
                    assert(model_pairs(pairs@, 0) =~= self.jpairs_full());
                }
            },
            CommandResponse::FrcSetUFrameUTool(p) => {
                push_field_str(&mut pairs, key_tag_command(), key_t_set_uframe_utool().as_slice());
                p.push_pairs(&mut pairs);
                proof {
                    assert(model_pairs(pairs@, 0) =~= self.jpairs_full());
                }
            },
            CommandResponse::FrcGetUFrameUTool(p) => {
                push_field_str(&mut pairs, key_tag_command(), key_t_get_uframe_utool().as_slice());
                p.push_pairs(&mut pairs);
                proof {
                    assert(model_pairs(pairs@, 0) =~= self.jpairs_full());
                }
            },
            CommandResponse::FrcGetStatus(p) => {
                push_field_str(&mut pairs, key_tag_command(), key_t_get_status().as_slice());
                p.push_pairs(&mut pairs);
                proof {
                    assert(model_pairs(pairs@, 0) =~= self.jpairs_full());
                }
            },
            CommandResponse::FrcReadUFrameData(p) => {
                push_field_str(&mut pairs, key_tag_command(), key_t_read_uframe_data().as_slice());
                p.push_pairs(&mut pairs);
                proof {
                    assert(model_pairs(pairs@, 0) =~= self.jpairs_full());
                }
            },
            CommandResponse::FrcWriteUFrameData(p) => {
                push_field_str(&mut pairs, key_tag_command(), key_t_write_uframe_data().as_slice());
                p.push_pairs(&mut pairs);
                proof {
                    assert(model_pairs(pairs@, 0) =~= self.jpairs_full());
                }
            },
            CommandResponse::FrcReadUToolData(p) => {
                push_field_str(&mut pairs, key_tag_command(), key_t_read_utool_data().as_slice());
                p.push_pairs(&mut pairs);
                proof {
                    assert(model_pairs(pairs@, 0) =~= self.jpairs_full());
                }
            },
            CommandResponse::FrcWriteUToolData(p) => {
                push_field_str(&mut pairs, key_tag_command(), key_t_write_utool_data().as_slice());
                p.push_pairs(&mut pairs);
                proof {
                    assert(model_pairs(pairs@, 0) =~= self.jpairs_full());
                }
            },
            CommandResponse::FrcReadDIN(p) => {
                push_field_str(&mut pairs, key_tag_command(), key_t_read_din().as_slice());
                p.push_pairs(&mut pairs);
                proof {
                    assert(model_pairs(pairs@, 0) =~= self.jpairs_full());
                }
            },
            CommandResponse::FrcReadCartesianPosition(p) => {
                push_field_str(&mut pairs, key_tag_command(), key_t_read_cartesian_position().as_slice());
                p.push_pairs(&mut pairs);
                proof {
                    assert(model_pairs(pairs@, 0) =~= self.jpairs_full());
                }
            },
            CommandResponse::FrcWriteDOUT(p) => {
                push_field_str(&mut pairs, key_tag_command(), key_t_write_dout().as_slice());
                p.push_pairs(&mut pairs);
                proof {
                    assert(model_pairs(pairs@, 0) =~= self.jpairs_full());
                }
            },
            CommandResponse::FrcReadJointAngles(p) => {
                push_field_str(&mut pairs, key_tag_command(), key_t_read_joint_angles().as_slice());
                p.push_pairs(&mut pairs);
                proof {
                    assert(model_pairs(pairs@, 0) =~= self.jpairs_full());
                }
            },
            CommandResponse::FrcSetOverride(p) => {
                push_field_str(&mut pairs, key_tag_command(), key_t_set_override().as_slice());
                p.push_pairs(&mut pairs);
                proof {
                    assert(model_pairs(pairs@, 0) =~= self.jpairs_full());
                }
            },
            CommandResponse::FrcReadPositionRegister(p) => {
                push_field_str(&mut pairs, key_tag_command(), key_t_read_position_register().as_slice());
                p.push_pairs(&mut pairs);
                proof {
                    assert(model_pairs(pairs@, 0) =~= self.jpairs_full());
                }
            },
            CommandResponse::FrcWritePositionRegister(p) => {
                push_field_str(&mut pairs, key_tag_command(), key_t_write_position_register().as_slice());
                p.push_pairs(&mut pairs);
                proof {
                    assert(model_pairs(pairs@, 0) =~= self.jpairs_full());
                }
            },
            CommandResponse::FrcReset(p) => {
                push_field_str(&mut pairs, key_tag_command(), key_t_reset().as_slice());
                p.push_pairs(&mut pairs);
                proof {
                    assert(model_pairs(pairs@, 0) =~= self.jpairs_full());
                }
            },
            CommandResponse::FrcReadTCPSpeed(p) => {
                push_field_str(&mut pairs, key_tag_command(), key_t_read_tcp_speed().as_slice());
                p.push_pairs(&mut pairs);
                proof {
                    assert(model_pairs(pairs@, 0) =~= self.jpairs_full());
                }
            },
        }
        let v = JVal::Obj(pairs);
        let mut out: Vec<u8> = Vec::new();
        e_print_jval(&v, &mut out);
        out.push(13);
        out.push(10);
        proof {
            assert(out@ =~= self.spec_wire() + seq![13u8, 10u8]);
        }
        out
    }

    /// Decodes one frame (without its terminator).
    ///
    /// Decoding what `encode` produced yields the packet back. More
    /// generally, any frame that parses as one whole object with a
    /// known discriminant decodes by field name alone: unknown extra
    /// pairs and any pair order are accepted. An unknown discriminant
    /// is reported as such; bytes that are no wire object at all, an
    /// object without a discriminant, and missing or ill-typed fields
    /// are reported as serialization failures. Never a panic.
    #[verifier::rlimit(100)]
    pub fn decode(frame: &[u8]) -> (r: Result<CommandResponse, FrcError>)
        ensures
            (forall|p: CommandResponse| #![auto] p.wf() && frame@ == p.spec_wire() ==> (r matches Ok(q) && CommandResponse::pkt_eq(q, p))),
            (wire_obj(frame@) is None ==> (r matches Err(FrcError::Serialization(_)))),
            ((match wire_obj(frame@) {
                Some(m) => sget_str(m, k_tag_command()) is None ==> (r matches Err(
                    FrcError::Serialization(_),
                )),
                None => true,
            })),
            ((match wire_obj(frame@) {
                Some(m) => (match sget_str(m, k_tag_command()) {
                    Some(t) => !CommandResponse::known_tag(t) ==> r == Err::<Self, FrcError>(
                        FrcError::UnrecognizedPacket,
                    ),
                    None => true,
                }),
                None => true,
            })),
            ((r matches Ok(q) ==> (wire_obj(frame@) matches Some(m) && sget_str(m, k_tag_command())
                == Some(q.tag_name())))),
            ((match wire_obj(frame@) {
                Some(m) => sget_str(m, k_tag_command()) == Some(k_t_initialize()) ==> (match
                    FrcInitializeResponse::sdecode(m) {
                    Some(pl) => r == Ok::<Self, FrcError>(CommandResponse::FrcInitialize(pl)),
                    None => (r matches Err(FrcError::Serialization(_))),
                }),
                None => true,
            })),
            ((match wire_obj(frame@) {
                Some(m) => sget_str(m, k_tag_command()) == Some(k_t_abort()) ==> (match
                    FrcAbortResponse::sdecode(m) {
                    Some(pl) => r == Ok::<Self, FrcError>(CommandResponse::FrcAbort(pl)),
                    None => (r matches Err(FrcError::Serialization(_))),
                }),
                None => true,
            })),
            ((match wire_obj(frame@) {
                Some(m) => sget_str(m, k_tag_command()) == Some(k_t_pause()) ==> (match
                    FrcPauseResponse::sdecode(m) {
                    Some(pl) => r == Ok::<Self, FrcError>(CommandResponse::FrcPause(pl)),
                    None => (r matches Err(FrcError::Serialization(_))),
                }),
                None => true,
            })),
            ((match wire_obj(frame@) {
                Some(m) => sget_str(m, k_tag_command()) == Some(k_t_continue()) ==> (match
                    FrcContinueResponse::sdecode(m) {
                    Some(pl) => r == Ok::<Self, FrcError>(CommandResponse::FrcContinue(pl)),
                    None => (r matches Err(FrcError::Serialization(_))),
                }),
                None => true,
            })),
            ((match wire_obj(frame@) {
                Some(m) => sget_str(m, k_tag_command()) == Some(k_t_read_error()) ==> (match r {
                    Ok(q) => (q matches CommandResponse::FrcReadError(pl) && sget_u16(m, k_error_id()) == Some(pl.error_id) && sget_u8(m, k_count()) == Some(pl.count) && sget_str(m, k_error_data()) == Some(pl.error_data@)),
                    Err(e) => (e matches FrcError::Serialization(_)) && (
                        sget_u16(m, k_error_id()) is None || sget_u8(m, k_count()) is None || sget_str(m, k_error_data()) is None),
                }),
                None => true,
            })),
            ((match wire_obj(frame@) {
                Some(m) => sget_str(m, k_tag_command()) == Some(k_t_set_uframe_utool()) ==> (match
                    FrcSetUFrameUToolResponse::sdecode(m) {
                    Some(pl) => r == Ok::<Self, FrcError>(CommandResponse::FrcSetUFrameUTool(pl)),
                    None => (r matches Err(FrcError::Serialization(_))),
                }),
                None => true,
            })),
            ((match wire_obj(frame@) {
                Some(m) => sget_str(m, k_tag_command()) == Some(k_t_get_uframe_utool()) ==> (match
                    FrcGetUFrameUToolResponse::sdecode(m) {
                    Some(pl) => r == Ok::<Self, FrcError>(CommandResponse::FrcGetUFrameUTool(pl)),
                    None => (r matches Err(FrcError::Serialization(_))),
                }),
                None => true,
            })),
            ((match wire_obj(frame@) {
                Some(m) => sget_str(m, k_tag_command()) == Some(k_t_get_status()) ==> (match
                    FrcGetStatusResponse::sdecode(m) {
                    Some(pl) => r == Ok::<Self, FrcError>(CommandResponse::FrcGetStatus(pl)),
                    None => (r matches Err(FrcError::Serialization(_))),
                }),
                None => true,
            })),
            ((match wire_obj(frame@) {
                Some(m) => sget_str(m, k_tag_command()) == Some(k_t_read_uframe_data()) ==> (match
                    FrcReadUFrameDataResponse::sdecode(m) {
                    Some(pl) => r == Ok::<Self, FrcError>(CommandResponse::FrcReadUFrameData(pl)),
                    None => (r matches Err(FrcError::Serialization(_))),
                }),
                None => true,
            })),
            ((match wire_obj(frame@) {
                Some(m) => sget_str(m, k_tag_command()) == Some(k_t_write_uframe_data()) ==> (match
                    FrcWriteUFrameDataResponse::sdecode(m) {
                    Some(pl) => r == Ok::<Self, FrcError>(CommandResponse::FrcWriteUFrameData(pl)),
                    None => (r matches Err(FrcError::Serialization(_))),
                }),
                None => true,
            })),
            ((match wire_obj(frame@) {
                Some(m) => sget_str(m, k_tag_command()) == Some(k_t_read_utool_data()) ==> (match
                    FrcReadUToolDataResponse::sdecode(m) {
                    Some(pl) => r == Ok::<Self, FrcError>(CommandResponse::FrcReadUToolData(pl)),
                    None => (r matches Err(FrcError::Serialization(_))),
                }),
                None => true,
            })),
            ((match wire_obj(frame@) {
                Some(m) => sget_str(m, k_tag_command()) == Some(k_t_write_utool_data()) ==> (match
                    FrcWriteUToolData::sdecode(m) {
                    Some(pl) => r == Ok::<Self, FrcError>(CommandResponse::FrcWriteUToolData(pl)),
                    None => (r matches Err(FrcError::Serialization(_))),
                }),
                None => true,
            })),
            ((match wire_obj(frame@) {
                Some(m) => sget_str(m, k_tag_command()) == Some(k_t_read_din()) ==> (match
                    FrcReadDINResponse::sdecode(m) {
                    Some(pl) => r == Ok::<Self, FrcError>(CommandResponse::FrcReadDIN(pl)),
                    None => (r matches Err(FrcError::Serialization(_))),
                }),
                None => true,
            })),
            ((match wire_obj(frame@) {
                Some(m) => sget_str(m, k_tag_command()) == Some(k_t_read_cartesian_position()) ==> (match
                    FrcReadCartesianPositionResponse::sdecode(m) {
                    Some(pl) => r == Ok::<Self, FrcError>(CommandResponse::FrcReadCartesianPosition(pl)),
                    None => (r matches Err(FrcError::Serialization(_))),
                }),
                None => true,
            })),
            ((match wire_obj(frame@) {
                Some(m) => sget_str(m, k_tag_command()) == Some(k_t_write_dout()) ==> (match
                    FrcWriteDOUTResponse::sdecode(m) {
                    Some(pl) => r == Ok::<Self, FrcError>(CommandResponse::FrcWriteDOUT(pl)),
                    None => (r matches Err(FrcError::Serialization(_))),
                }),
                None => true,
            })),
            ((match wire_obj(frame@) {
                Some(m) => sget_str(m, k_tag_command()) == Some(k_t_read_joint_angles()) ==> (match
                    FrcReadJointAnglesResponse::sdecode(m) {
                    Some(pl) => r == Ok::<Self, FrcError>(CommandResponse::FrcReadJointAngles(pl)),
                    None => (r matches Err(FrcError::Serialization(_))),
                }),
                None => true,
            })),
            ((match wire_obj(frame@) {
                Some(m) => sget_str(m, k_tag_command()) == Some(k_t_set_override()) ==> (match
                    FrcSetOverrideResponse::sdecode(m) {
                    Some(pl) => r == Ok::<Self, FrcError>(CommandResponse::FrcSetOverride(pl)),
                    None => (r matches Err(FrcError::Serialization(_))),
                }),
                None => true,
            })),
            ((match wire_obj(frame@) {
                Some(m) => sget_str(m, k_tag_command()) == Some(k_t_read_position_register()) ==> (match
                    FrcReadPositionRegisterResponse::sdecode(m) {
                    Some(pl) => r == Ok::<Self, FrcError>(CommandResponse::FrcReadPositionRegister(pl)),
                    None => (r matches Err(FrcError::Serialization(_))),
                }),
                None => true,
            })),
            ((match wire_obj(frame@) {
                Some(m) => sget_str(m, k_tag_command()) == Some(k_t_write_position_register()) ==> (match
                    FrcWritePositionRegisterResponse::sdecode(m) {
                    Some(pl) => r == Ok::<Self, FrcError>(CommandResponse::FrcWritePositionRegister(pl)),
                    None => (r matches Err(FrcError::Serialization(_))),
                }),
                None => true,
            })),
            ((match wire_obj(frame@) {
                Some(m) => sget_str(m, k_tag_command()) == Some(k_t_reset()) ==> (match
                    FrcResetResponse::sdecode(m) {
                    Some(pl) => r == Ok::<Self, FrcError>(CommandResponse::FrcReset(pl)),
                    None => (r matches Err(FrcError::Serialization(_))),
                }),
                None => true,
            })),
            ((match wire_obj(frame@) {
                Some(m) => sget_str(m, k_tag_command()) == Some(k_t_read_tcp_speed()) ==> (match
                    FrcReadTCPSpeedResponse::sdecode(m) {
                    Some(pl) => r == Ok::<Self, FrcError>(CommandResponse::FrcReadTCPSpeed(pl)),
                    None => (r matches Err(FrcError::Serialization(_))),
                }),
                None => true,
            })),
    {
        let parsed = e_parse_jval(frame, 0, frame.len());
        let (jv, end) = match parsed {
            Some(vj) => vj,
            None => {
                proof {
                    assert forall|p: CommandResponse| p.wf() && frame@ == p.spec_wire() implies false by {
                        CommandResponse::lemma_wire_facts(p, frame@);
                    }
                }
                return Err(FrcError::Serialization("frame did not parse as a wire object".to_owned()));
            },
        };
        if end != frame.len() {
            proof {
                assert forall|p: CommandResponse| p.wf() && frame@ == p.spec_wire() implies false by {
                    CommandResponse::lemma_wire_facts(p, frame@);
                }
            }
            return Err(FrcError::Serialization("frame holds trailing bytes".to_owned()));
        }
        let ghost gv = jv.model();
        match jv {
            JVal::Obj(pairs) => {
                let tag = match get_str(&pairs, key_tag_command().as_slice()) {
                    Some(t) => t,
                    None => {
                        proof {
                            assert forall|p: CommandResponse| p.wf() && frame@ == p.spec_wire() implies false by {
                                CommandResponse::lemma_wire_facts(p, frame@);
                            }
                        }
                        return Err(FrcError::Serialization("frame names no discriminant".to_owned()));
                    },
                };
                let res: Result<CommandResponse, FrcError> = 
                if bytes_eq(tag.as_slice(), key_t_initialize().as_slice()) {
                    match FrcInitializeResponse::from_pairs(&pairs) {
                        Some(pl) => Ok(CommandResponse::FrcInitialize(pl)),
                        None => Err(FrcError::Serialization("FRC_Initialize fields did not decode".to_owned())),
                    }
                } else if bytes_eq(tag.as_slice(), key_t_abort().as_slice()) {
                    match FrcAbortResponse::from_pairs(&pairs) {
                        Some(pl) => Ok(CommandResponse::FrcAbort(pl)),
                        None => Err(FrcError::Serialization("FRC_Abort fields did not decode".to_owned())),
                    }
                } else if bytes_eq(tag.as_slice(), key_t_pause().as_slice()) {
                    match FrcPauseResponse::from_pairs(&pairs) {
                        Some(pl) => Ok(CommandResponse::FrcPause(pl)),
                        None => Err(FrcError::Serialization("FRC_Pause fields did not decode".to_owned())),
                    }
                } else if bytes_eq(tag.as_slice(), key_t_continue().as_slice()) {
                    match FrcContinueResponse::from_pairs(&pairs) {
                        Some(pl) => Ok(CommandResponse::FrcContinue(pl)),
                        None => Err(FrcError::Serialization("FRC_Continue fields did not decode".to_owned())),
                    }
                } else if bytes_eq(tag.as_slice(), key_t_read_error().as_slice()) {
                    match FrcReadErrorResponse::from_pairs(&pairs) {
                        Some(pl) => Ok(CommandResponse::FrcReadError(pl)),
                        None => Err(FrcError::Serialization("FRC_ReadError fields did not decode".to_owned())),
                    }
                } else if bytes_eq(tag.as_slice(), key_t_set_uframe_utool().as_slice()) {
                    match FrcSetUFrameUToolResponse::from_pairs(&pairs) {
                        Some(pl) => Ok(CommandResponse::FrcSetUFrameUTool(pl)),
                        None => Err(FrcError::Serialization("FRC_SetUFrameUTool fields did not decode".to_owned())),
                    }
                } else if bytes_eq(tag.as_slice(), key_t_get_uframe_utool().as_slice()) {
                    match FrcGetUFrameUToolResponse::from_pairs(&pairs) {
                        Some(pl) => Ok(CommandResponse::FrcGetUFrameUTool(pl)),
                        None => Err(FrcError::Serialization("FRC_GetUFrameUTool fields did not decode".to_owned())),
                    }
                } else if bytes_eq(tag.as_slice(), key_t_get_status().as_slice()) {
                    match FrcGetStatusResponse::from_pairs(&pairs) {
                        Some(pl) => Ok(CommandResponse::FrcGetStatus(pl)),
                        None => Err(FrcError::Serialization("FRC_GetStatus fields did not decode".to_owned())),
                    }
                } else if bytes_eq(tag.as_slice(), key_t_read_uframe_data().as_slice()) {
                    match FrcReadUFrameDataResponse::from_pairs(&pairs) {
                        Some(pl) => Ok(CommandResponse::FrcReadUFrameData(pl)),
                        None => Err(FrcError::Serialization("FRC_ReadUFrameData fields did not decode".to_owned())),
                    }
                } else if bytes_eq(tag.as_slice(), key_t_write_uframe_data().as_slice()) {
                    match FrcWriteUFrameDataResponse::from_pairs(&pairs) {
                        Some(pl) => Ok(CommandResponse::FrcWriteUFrameData(pl)),
                        None => Err(FrcError::Serialization("FRC_WriteUFrameData fields did not decode".to_owned())),
                    }
                } else if bytes_eq(tag.as_slice(), key_t_read_utool_data().as_slice()) {
                    match FrcReadUToolDataResponse::from_pairs(&pairs) {
                        Some(pl) => Ok(CommandResponse::FrcReadUToolData(pl)),
                        None => Err(FrcError::Serialization("FRC_ReadUToolData fields did not decode".to_owned())),
                    }
                } else if bytes_eq(tag.as_slice(), key_t_write_utool_data().as_slice()) {
                    match FrcWriteUToolData::from_pairs(&pairs) {
                        Some(pl) => Ok(CommandResponse::FrcWriteUToolData(pl)),
                        None => Err(FrcError::Serialization("FRC_WriteUToolData fields did not decode".to_owned())),
                    }
                } else if bytes_eq(tag.as_slice(), key_t_read_din().as_slice()) {
                    match FrcReadDINResponse::from_pairs(&pairs) {
                        Some(pl) => Ok(CommandResponse::FrcReadDIN(pl)),
                        None => Err(FrcError::Serialization("FRC_ReadDIN fields did not decode".to_owned())),
                    }
                } else if bytes_eq(tag.as_slice(), key_t_read_cartesian_position().as_slice()) {
                    match FrcReadCartesianPositionResponse::from_pairs(&pairs) {
                        Some(pl) => Ok(CommandResponse::FrcReadCartesianPosition(pl)),
                        None => Err(FrcError::Serialization("FRC_ReadCartesianPosition fields did not decode".to_owned())),
                    }
                } else if bytes_eq(tag.as_slice(), key_t_write_dout().as_slice()) {
                    match FrcWriteDOUTResponse::from_pairs(&pairs) {
                        Some(pl) => Ok(CommandResponse::FrcWriteDOUT(pl)),
                        None => Err(FrcError::Serialization("FRC_WriteDOUT fields did not decode".to_owned())),
                    }
                } else if bytes_eq(tag.as_slice(), key_t_read_joint_angles().as_slice()) {
                    match FrcReadJointAnglesResponse::from_pairs(&pairs) {
                        Some(pl) => Ok(CommandResponse::FrcReadJointAngles(pl)),
                        None => Err(FrcError::Serialization("FRC_ReadJointAngles fields did not decode".to_owned())),
                    }
                } else if bytes_eq(tag.as_slice(), key_t_set_override().as_slice()) {
                    match FrcSetOverrideResponse::from_pairs(&pairs) {
                        Some(pl) => Ok(CommandResponse::FrcSetOverride(pl)),
                        None => Err(FrcError::Serialization("FRC_SetOverride fields did not decode".to_owned())),
                    }
                } else if bytes_eq(tag.as_slice(), key_t_read_position_register().as_slice()) {
                    match FrcReadPositionRegisterResponse::from_pairs(&pairs) {
                        Some(pl) => Ok(CommandResponse::FrcReadPositionRegister(pl)),
                        None => Err(FrcError::Serialization("FRC_ReadPositionRegister fields did not decode".to_owned())),
                    }
                } else if bytes_eq(tag.as_slice(), key_t_write_position_register().as_slice()) {
                    match FrcWritePositionRegisterResponse::from_pairs(&pairs) {
                        Some(pl) => Ok(CommandResponse::FrcWritePositionRegister(pl)),
                        None => Err(FrcError::Serialization("FRC_WritePositionRegister fields did not decode".to_owned())),
                    }
                } else if bytes_eq(tag.as_slice(), key_t_reset().as_slice()) {
                    match FrcResetResponse::from_pairs(&pairs) {
                        Some(pl) => Ok(CommandResponse::FrcReset(pl)),
                        None => Err(FrcError::Serialization("FRC_Reset fields did not decode".to_owned())),
                    }
                } else if bytes_eq(tag.as_slice(), key_t_read_tcp_speed().as_slice()) {
                    match FrcReadTCPSpeedResponse::from_pairs(&pairs) {
                        Some(pl) => Ok(CommandResponse::FrcReadTCPSpeed(pl)),
                        None => Err(FrcError::Serialization("FRC_ReadTCPSpeed fields did not decode".to_owned())),
                    }
                } else {
                    Err(FrcError::UnrecognizedPacket)
                };
                proof {
                    CommandResponse::lemma_tags_distinct();
                    assert(wire_obj(frame@) == Some(model_pairs(pairs@, 0)));
                    assert forall|p: CommandResponse| p.wf() && frame@ == p.spec_wire() implies (res matches Ok(q) && CommandResponse::pkt_eq(q, p)) by {
                        CommandResponse::lemma_wire_facts(p, frame@);
                        assert(gv == p.jval());
                        assert(model_pairs(pairs@, 0) == p.jpairs_full());
                        assert(tag@ == p.tag_name());
                        match p {
                            CommandResponse::FrcInitialize(pl) => {
                                pl.lemma_round_trip((k_tag_command(), JValM::Str(k_t_initialize())));
                            },
                            CommandResponse::FrcAbort(pl) => {
                                pl.lemma_round_trip((k_tag_command(), JValM::Str(k_t_abort())));
                            },
                            CommandResponse::FrcPause(pl) => {
                                pl.lemma_round_trip((k_tag_command(), JValM::Str(k_t_pause())));
                            },
                            CommandResponse::FrcContinue(pl) => {
                                pl.lemma_round_trip((k_tag_command(), JValM::Str(k_t_continue())));
                            },
                            CommandResponse::FrcReadError(pl) => {
                                pl.lemma_round_trip((k_tag_command(), JValM::Str(k_t_read_error())));
                            },
                            CommandResponse::FrcSetUFrameUTool(pl) => {
                                pl.lemma_round_trip((k_tag_command(), JValM::Str(k_t_set_uframe_utool())));
                            },
                            CommandResponse::FrcGetUFrameUTool(pl) => {
                                pl.lemma_round_trip((k_tag_command(), JValM::Str(k_t_get_uframe_utool())));
                            },
                            CommandResponse::FrcGetStatus(pl) => {
                                pl.lemma_round_trip((k_tag_command(), JValM::Str(k_t_get_status())));
                            },
                            CommandResponse::FrcReadUFrameData(pl) => {
                                pl.lemma_round_trip((k_tag_command(), JValM::Str(k_t_read_uframe_data())));
                            },
                            CommandResponse::FrcWriteUFrameData(pl) => {
                                pl.lemma_round_trip((k_tag_command(), JValM::Str(k_t_write_uframe_data())));
                            },
                            CommandResponse::FrcReadUToolData(pl) => {
                                pl.lemma_round_trip((k_tag_command(), JValM::Str(k_t_read_utool_data())));
                            },
                            CommandResponse::FrcWriteUToolData(pl) => {
                                pl.lemma_round_trip((k_tag_command(), JValM::Str(k_t_write_utool_data())));
                            },
                            CommandResponse::FrcReadDIN(pl) => {
                                pl.lemma_round_trip((k_tag_command(), JValM::Str(k_t_read_din())));
                            },
                            CommandResponse::FrcReadCartesianPosition(pl) => {
                                pl.lemma_round_trip((k_tag_command(), JValM::Str(k_t_read_cartesian_position())));
                            },
                            CommandResponse::FrcWriteDOUT(pl) => {
                                pl.lemma_round_trip((k_tag_command(), JValM::Str(k_t_write_dout())));
                            },
                            CommandResponse::FrcReadJointAngles(pl) => {
                                pl.lemma_round_trip((k_tag_command(), JValM::Str(k_t_read_joint_angles())));
                            },
                            CommandResponse::FrcSetOverride(pl) => {
                                pl.lemma_round_trip((k_tag_command(), JValM::Str(k_t_set_override())));
                            },
                            CommandResponse::FrcReadPositionRegister(pl) => {
                                pl.lemma_round_trip((k_tag_command(), JValM::Str(k_t_read_position_register())));
                            },
                            CommandResponse::FrcWritePositionRegister(pl) => {
                                pl.lemma_round_trip((k_tag_command(), JValM::Str(k_t_write_position_register())));
                            },
                            CommandResponse::FrcReset(pl) => {
                                pl.lemma_round_trip((k_tag_command(), JValM::Str(k_t_reset())));
                            },
                            CommandResponse::FrcReadTCPSpeed(pl) => {
                                pl.lemma_round_trip((k_tag_command(), JValM::Str(k_t_read_tcp_speed())));
                            },
                        }
                    }
                }
                res
            },
            _ => {
                proof {
                    assert forall|p: CommandResponse| p.wf() && frame@ == p.spec_wire() implies false by {
                        CommandResponse::lemma_wire_facts(p, frame@);
                    }
                }
                Err(FrcError::Serialization("frame is not a wire object".to_owned()))
            },
        }
    }
}

} // verus!
