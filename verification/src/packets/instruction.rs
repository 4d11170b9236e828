//! Instruction packets: pipelined program steps, each carrying a
//! caller-assigned sequence identifier that its response echoes back.
//!
//! The family holds the nine instruction shapes the protocol defines
//! payloads for; a frame naming any other instruction discriminant is
//! reported as an unrecognized packet rather than failing silently.

use vstd::prelude::*;
use crate::json::{
    model_pairs, JVal, JValM, sget_str, sget_i32, jpairs_wf, jval_wf, str_ok, lemma_slookup_at,
    lemma_jpairs_wf_cons, lemma_jval_size_le_print, lemma_parse_print_jval, parse_jval,
    e_parse_jval, e_print_jval, bytes_eq, print_jval, get_str, wire_obj,
};
use crate::keys::{
    k_program_name,
    k_sequence_id,
    k_t_call,
    k_t_call_ok,
    k_t_circular_relative,
    k_t_circular_relative_ok,
    k_t_joint_motion_jrep,
    k_t_joint_motion_jrep_ok,
    k_t_linear_relative,
    k_t_linear_relative_ok,
    k_t_set_payload,
    k_t_set_payload_ok,
    k_t_set_uframe,
    k_t_set_uframe_ok,
    k_t_set_utool,
    k_t_set_utool_ok,
    k_t_wait_din,
    k_t_wait_din_ok,
    k_t_wait_time,
    k_t_wait_time_ok,
    k_tag_instruction,
    k_tag_instruction_ok,
    key_t_call,
    key_t_circular_relative,
    key_t_joint_motion_jrep,
    key_t_linear_relative,
    key_t_set_payload,
    key_t_set_uframe,
    key_t_set_utool,
    key_t_wait_din,
    key_t_wait_time,
    key_tag_instruction,
};
use crate::wire::push_field_str;
use crate::instructions::{
    FrcWaitDIN, FrcWaitDINResponse, FrcSetUFrame, FrcSetUFrameResponse, FrcSetUTool,
    FrcSetUToolResponse, FrcWaitTime, FrcWaitTimeResponse, FrcSetPayLoad,
    FrcSetPayLoadResponse, FrcCall, FrcCallResponse, FrcLinearRelative,
    FrcLinearRelativeResponse, FrcCircularRelative, FrcCircularRelativeResponse,
    FrcJointMotionJRep, FrcJointMotionJRepResponse,
};
use crate::FrcError;

verus! {


/// Program steps; every one carries an explicit sequence identifier.
#[derive(Debug, Clone, PartialEq, Eq)]
pub enum Instruction {
    FrcWaitDIN(FrcWaitDIN),
    FrcSetUFrame(FrcSetUFrame),
    FrcSetUTool(FrcSetUTool),
    FrcWaitTime(FrcWaitTime),
    FrcSetPayLoad(FrcSetPayLoad),
    FrcCall(FrcCall),
    FrcLinearRelative(FrcLinearRelative),
    FrcCircularRelative(FrcCircularRelative),
    FrcJointMotionJRep(FrcJointMotionJRep),
}

impl Instruction {
    /// The wire spelling of this packet's discriminant value.
    pub open spec fn tag_name(self) -> Seq<u8> {
        match self {
            Instruction::FrcWaitDIN(_) => k_t_wait_din(),
            Instruction::FrcSetUFrame(_) => k_t_set_uframe(),
            Instruction::FrcSetUTool(_) => k_t_set_utool(),
            Instruction::FrcWaitTime(_) => k_t_wait_time(),
            Instruction::FrcSetPayLoad(_) => k_t_set_payload(),
            Instruction::FrcCall(_) => k_t_call(),
            Instruction::FrcLinearRelative(_) => k_t_linear_relative(),
            Instruction::FrcCircularRelative(_) => k_t_circular_relative(),
            Instruction::FrcJointMotionJRep(_) => k_t_joint_motion_jrep(),
        }
    }

    /// The payload's wire pairs; empty for bare discriminants.
    pub open spec fn payload_pairs(self) -> Seq<(Seq<u8>, JValM)> {
        match self {
            Instruction::FrcWaitDIN(p) => p.jpairs(),
            Instruction::FrcSetUFrame(p) => p.jpairs(),
            Instruction::FrcSetUTool(p) => p.jpairs(),
            Instruction::FrcWaitTime(p) => p.jpairs(),
            Instruction::FrcSetPayLoad(p) => p.jpairs(),
            Instruction::FrcCall(p) => p.jpairs(),
            Instruction::FrcLinearRelative(p) => p.jpairs(),
            Instruction::FrcCircularRelative(p) => p.jpairs(),
            Instruction::FrcJointMotionJRep(p) => p.jpairs(),
        }
    }

    pub open spec fn wf(self) -> bool {
        match self {
            Instruction::FrcWaitDIN(p) => p.wf(),
            Instruction::FrcSetUFrame(p) => p.wf(),
            Instruction::FrcSetUTool(p) => p.wf(),
            Instruction::FrcWaitTime(p) => p.wf(),
            Instruction::FrcSetPayLoad(p) => p.wf(),
            Instruction::FrcCall(p) => p.wf(),
            Instruction::FrcLinearRelative(p) => p.wf(),
            Instruction::FrcCircularRelative(p) => p.wf(),
            Instruction::FrcJointMotionJRep(p) => p.wf(),
        }
    }

    /// The discriminant pair followed by the payload's pairs.
    pub open spec fn jpairs_full(self) -> Seq<(Seq<u8>, JValM)> {
        seq![(k_tag_instruction(), JValM::Str(self.tag_name()))] + self.payload_pairs()
    }

    pub open spec fn jval(self) -> JValM {
        JValM::Obj(self.jpairs_full())
    }

    /// The exact JSON text of this packet, without the frame terminator.
    pub open spec fn spec_wire(self) -> Seq<u8> {
        print_jval(self.jval())
    }

    /// Packet equality, comparing byte-string fields by contents.
    pub open spec fn pkt_eq(a: Instruction, b: Instruction) -> bool {
        match (a, b) {
            (Instruction::FrcCall(x), Instruction::FrcCall(y)) => x.sequence_id == y.sequence_id && x.program_name@ == y.program_name@,
            _ => a == b,
        }
    }

    /// Discriminant values this family recognizes.
    pub open spec fn known_tag(t: Seq<u8>) -> bool {
        ||| t == k_t_wait_din()
        ||| t == k_t_set_uframe()
        ||| t == k_t_set_utool()
        ||| t == k_t_wait_time()
        ||| t == k_t_set_payload()
        ||| t == k_t_call()
        ||| t == k_t_linear_relative()
        ||| t == k_t_circular_relative()
        ||| t == k_t_joint_motion_jrep()
    }

    pub proof fn lemma_wf(self)
        requires
            self.wf(),
        ensures
            jval_wf(self.jval()),
    {
        k_tag_instruction_ok();
        match self {
            Instruction::FrcWaitDIN(p) => {
                k_t_wait_din_ok();
                p.lemma_wf();
                assert(jval_wf(JValM::Str(k_t_wait_din())));
                lemma_jpairs_wf_cons((k_tag_instruction(), JValM::Str(k_t_wait_din())), p.jpairs());
            },
            Instruction::FrcSetUFrame(p) => {
                k_t_set_uframe_ok();
                p.lemma_wf();
                assert(jval_wf(JValM::Str(k_t_set_uframe())));
                lemma_jpairs_wf_cons((k_tag_instruction(), JValM::Str(k_t_set_uframe())), p.jpairs());
            },
            Instruction::FrcSetUTool(p) => {
                k_t_set_utool_ok();
                p.lemma_wf();
                assert(jval_wf(JValM::Str(k_t_set_utool())));
                lemma_jpairs_wf_cons((k_tag_instruction(), JValM::Str(k_t_set_utool())), p.jpairs());
            },
            Instruction::FrcWaitTime(p) => {
                k_t_wait_time_ok();
                p.lemma_wf();
                assert(jval_wf(JValM::Str(k_t_wait_time())));
                lemma_jpairs_wf_cons((k_tag_instruction(), JValM::Str(k_t_wait_time())), p.jpairs());
            },
            Instruction::FrcSetPayLoad(p) => {
                k_t_set_payload_ok();
                p.lemma_wf();
                assert(jval_wf(JValM::Str(k_t_set_payload())));
                lemma_jpairs_wf_cons((k_tag_instruction(), JValM::Str(k_t_set_payload())), p.jpairs());
            },
            Instruction::FrcCall(p) => {
                k_t_call_ok();
                p.lemma_wf();
                assert(jval_wf(JValM::Str(k_t_call())));
                lemma_jpairs_wf_cons((k_tag_instruction(), JValM::Str(k_t_call())), p.jpairs());
            },
            Instruction::FrcLinearRelative(p) => {
                k_t_linear_relative_ok();
                p.lemma_wf();
                assert(jval_wf(JValM::Str(k_t_linear_relative())));
                lemma_jpairs_wf_cons((k_tag_instruction(), JValM::Str(k_t_linear_relative())), p.jpairs());
            },
            Instruction::FrcCircularRelative(p) => {
                k_t_circular_relative_ok();
                p.lemma_wf();
                assert(jval_wf(JValM::Str(k_t_circular_relative())));
                lemma_jpairs_wf_cons((k_tag_instruction(), JValM::Str(k_t_circular_relative())), p.jpairs());
            },
            Instruction::FrcJointMotionJRep(p) => {
                k_t_joint_motion_jrep_ok();
                p.lemma_wf();
                assert(jval_wf(JValM::Str(k_t_joint_motion_jrep())));
                lemma_jpairs_wf_cons((k_tag_instruction(), JValM::Str(k_t_joint_motion_jrep())), p.jpairs());
            },
        }
    }

    /// What the printed form of a packet parses to, and the
    /// discriminant its pairs carry.
    pub proof fn lemma_wire_facts(p: Instruction, s: Seq<u8>)
        requires
            p.wf(),
            s == p.spec_wire(),
        ensures
            parse_jval(s, 0, s.len() as nat) == Some((p.jval(), s.len() as int)),
            sget_str(p.jpairs_full(), k_tag_instruction()) == Some(p.tag_name()),
    {
        p.lemma_wf();
        lemma_jval_size_le_print(p.jval());
        assert(s.subrange(0, s.len() as int) =~= s);
        lemma_parse_print_jval(p.jval(), s, 0, s.len() as nat);
        let m = p.jpairs_full();
        assert(m[0] == (k_tag_instruction(), JValM::Str(p.tag_name())));
        lemma_slookup_at(m, k_tag_instruction(), 0);
    }

    /// No two discriminant spellings of this family coincide.
    pub proof fn lemma_tags_distinct()
        ensures
            k_t_wait_din() != k_t_set_uframe(),
            k_t_wait_din() != k_t_set_utool(),
            k_t_wait_din() != k_t_wait_time(),
            k_t_wait_din() != k_t_set_payload(),
            k_t_wait_din() != k_t_call(),
            k_t_wait_din() != k_t_linear_relative(),
            k_t_wait_din() != k_t_circular_relative(),
            k_t_wait_din() != k_t_joint_motion_jrep(),
            k_t_set_uframe() != k_t_set_utool(),
            k_t_set_uframe() != k_t_wait_time(),
            k_t_set_uframe() != k_t_set_payload(),
            k_t_set_uframe() != k_t_call(),
            k_t_set_uframe() != k_t_linear_relative(),
            k_t_set_uframe() != k_t_circular_relative(),
            k_t_set_uframe() != k_t_joint_motion_jrep(),
            k_t_set_utool() != k_t_wait_time(),
            k_t_set_utool() != k_t_set_payload(),
            k_t_set_utool() != k_t_call(),
            k_t_set_utool() != k_t_linear_relative(),
            k_t_set_utool() != k_t_circular_relative(),
            k_t_set_utool() != k_t_joint_motion_jrep(),
            k_t_wait_time() != k_t_set_payload(),
            k_t_wait_time() != k_t_call(),
            k_t_wait_time() != k_t_linear_relative(),
            k_t_wait_time() != k_t_circular_relative(),
            k_t_wait_time() != k_t_joint_motion_jrep(),
            k_t_set_payload() != k_t_call(),
            k_t_set_payload() != k_t_linear_relative(),
            k_t_set_payload() != k_t_circular_relative(),
            k_t_set_payload() != k_t_joint_motion_jrep(),
            k_t_call() != k_t_linear_relative(),
            k_t_call() != k_t_circular_relative(),
            k_t_call() != k_t_joint_motion_jrep(),
            k_t_linear_relative() != k_t_circular_relative(),
            k_t_linear_relative() != k_t_joint_motion_jrep(),
            k_t_circular_relative() != k_t_joint_motion_jrep(),
    {
        assert(k_t_wait_din().len() != k_t_set_uframe().len());
        assert(k_t_wait_din().len() != k_t_set_utool().len());
        assert(k_t_wait_din().len() != k_t_wait_time().len());
        assert(k_t_wait_din().len() != k_t_set_payload().len());
        assert(k_t_wait_din().len() != k_t_call().len());
        assert(k_t_wait_din().len() != k_t_linear_relative().len());
        assert(k_t_wait_din().len() != k_t_circular_relative().len());
        assert(k_t_wait_din().len() != k_t_joint_motion_jrep().len());
        assert(k_t_set_uframe().len() != k_t_set_utool().len());
        assert(k_t_set_uframe().len() != k_t_wait_time().len());
        assert(k_t_set_uframe().len() != k_t_set_payload().len());
        assert(k_t_set_uframe().len() != k_t_call().len());
        assert(k_t_set_uframe().len() != k_t_linear_relative().len());
        assert(k_t_set_uframe().len() != k_t_circular_relative().len());
        assert(k_t_set_uframe().len() != k_t_joint_motion_jrep().len());
        assert(k_t_set_utool()[4] != k_t_wait_time()[4]);
        assert(k_t_set_utool().len() != k_t_set_payload().len());
        assert(k_t_set_utool().len() != k_t_call().len());
        assert(k_t_set_utool().len() != k_t_linear_relative().len());
        assert(k_t_set_utool().len() != k_t_circular_relative().len());
        assert(k_t_set_utool().len() != k_t_joint_motion_jrep().len());
        assert(k_t_wait_time().len() != k_t_set_payload().len());
        assert(k_t_wait_time().len() != k_t_call().len());
        assert(k_t_wait_time().len() != k_t_linear_relative().len());
        assert(k_t_wait_time().len() != k_t_circular_relative().len());
        assert(k_t_wait_time().len() != k_t_joint_motion_jrep().len());
        assert(k_t_set_payload().len() != k_t_call().len());
        assert(k_t_set_payload().len() != k_t_linear_relative().len());
        assert(k_t_set_payload().len() != k_t_circular_relative().len());
        assert(k_t_set_payload().len() != k_t_joint_motion_jrep().len());
        assert(k_t_call().len() != k_t_linear_relative().len());
        assert(k_t_call().len() != k_t_circular_relative().len());
        assert(k_t_call().len() != k_t_joint_motion_jrep().len());
        assert(k_t_linear_relative().len() != k_t_circular_relative().len());
        assert(k_t_linear_relative().len() != k_t_joint_motion_jrep().len());
        assert(k_t_circular_relative().len() != k_t_joint_motion_jrep().len());
    }

    /// The wire bytes of this packet: its JSON text followed by the
    /// carriage-return line-feed frame terminator.
    pub fn encode(&self) -> (r: Vec<u8>)
        requires
            self.wf(),
        ensures
            r@ == self.spec_wire() + seq![13u8, 10u8],
    {
        let mut pairs: Vec<(Vec<u8>, JVal)> = Vec::new();
        match self {
            Instruction::FrcWaitDIN(p) => {
                push_field_str(&mut pairs, key_tag_instruction(), key_t_wait_din().as_slice());
                p.push_pairs(&mut pairs);
                proof {
                    assert(model_pairs(pairs@, 0) =~= self.jpairs_full());
                }
            },
            Instruction::FrcSetUFrame(p) => {
                push_field_str(&mut pairs, key_tag_instruction(), key_t_set_uframe().as_slice());
                p.push_pairs(&mut pairs);
                proof {
                    assert(model_pairs(pairs@, 0) =~= self.jpairs_full());
                }
            },
            Instruction::FrcSetUTool(p) => {
                push_field_str(&mut pairs, key_tag_instruction(), key_t_set_utool().as_slice());
                p.push_pairs(&mut pairs);
                proof {
                    assert(model_pairs(pairs@, 0) =~= self.jpairs_full());
                }
            },
            Instruction::FrcWaitTime(p) => {
                push_field_str(&mut pairs, key_tag_instruction(), key_t_wait_time().as_slice());
                p.push_pairs(&mut pairs);
                proof {
                    assert(model_pairs(pairs@, 0) =~= self.jpairs_full());
                }
            },
            Instruction::FrcSetPayLoad(p) => {
                push_field_str(&mut pairs, key_tag_instruction(), key_t_set_payload().as_slice());
                p.push_pairs(&mut pairs);
                proof {
                    assert(model_pairs(pairs@, 0) =~= self.jpairs_full());
                }
            },
            Instruction::FrcCall(p) => {
                push_field_str(&mut pairs, key_tag_instruction(), key_t_call().as_slice());
                p.push_pairs(&mut pairs);
                proof {
                    assert(model_pairs(pairs@, 0) =~= self.jpairs_full());
                }
            },
            Instruction::FrcLinearRelative(p) => {
                push_field_str(&mut pairs, key_tag_instruction(), key_t_linear_relative().as_slice());
                p.push_pairs(&mut pairs);
                proof {
                    assert(model_pairs(pairs@, 0) =~= self.jpairs_full());
                }
            },
            Instruction::FrcCircularRelative(p) => {
                push_field_str(&mut pairs, key_tag_instruction(), key_t_circular_relative().as_slice());
                p.push_pairs(&mut pairs);
                proof {
                    assert(model_pairs(pairs@, 0) =~= self.jpairs_full());
                }
            },
            Instruction::FrcJointMotionJRep(p) => {
                push_field_str(&mut pairs, key_tag_instruction(), key_t_joint_motion_jrep().as_slice());
                p.push_pairs(&mut pairs);
                proof {
                    assert(model_pairs(pairs@, 0) =~= self.jpairs_full());
                }
            },
        }
        let v = JVal::Obj(pairs);
        let mut out: Vec<u8> = Vec::new();
        e_print_jval(&v, &mut out);
        out.push(13);
        out.push(10);
        proof {
            assert(out@ =~= self.spec_wire() + seq![13u8, 10u8]);
        }
        out
    }

    /// Decodes one frame (without its terminator).
    ///
    /// Decoding what `encode` produced yields the packet back. More
    /// generally, any frame that parses as one whole object with a
    /// known discriminant decodes by field name alone: unknown extra
    /// pairs and any pair order are accepted. An unknown discriminant
    /// is reported as such; bytes that are no wire object at all, an
    /// object without a discriminant, and missing or ill-typed fields
    /// are reported as serialization failures. Never a panic.
    #[verifier::rlimit(100)]
    pub fn decode(frame: &[u8]) -> (r: Result<Instruction, FrcError>)
        ensures
            (forall|p: Instruction| #![auto] p.wf() && frame@ == p.spec_wire() ==> (r matches Ok(q) && Instruction::pkt_eq(q, p))),
            (wire_obj(frame@) is None ==> (r matches Err(FrcError::Serialization(_)))),
            ((match wire_obj(frame@) {
                Some(m) => sget_str(m, k_tag_instruction()) is None ==> (r matches Err(
                    FrcError::Serialization(_),
                )),
                None => true,
            })),
            ((match wire_obj(frame@) {
                Some(m) => (match sget_str(m, k_tag_instruction()) {
                    Some(t) => !Instruction::known_tag(t) ==> r == Err::<Self, FrcError>(
                        FrcError::UnrecognizedPacket,
                    ),
                    None => true,
                }),
                None => true,
            })),
            ((r matches Ok(q) ==> (wire_obj(frame@) matches Some(m) && sget_str(m, k_tag_instruction())
                == Some(q.tag_name())))),
            ((match wire_obj(frame@) {
                Some(m) => sget_str(m, k_tag_instruction()) == Some(k_t_wait_din()) ==> (match
                    FrcWaitDIN::sdecode(m) {
                    Some(pl) => r == Ok::<Self, FrcError>(Instruction::FrcWaitDIN(pl)),
                    None => (r matches Err(FrcError::Serialization(_))),
                }),
                None => true,
            })),
            ((match wire_obj(frame@) {
                Some(m) => sget_str(m, k_tag_instruction()) == Some(k_t_set_uframe()) ==> (match
                    FrcSetUFrame::sdecode(m) {
                    Some(pl) => r == Ok::<Self, FrcError>(Instruction::FrcSetUFrame(pl)),
                    None => (r matches Err(FrcError::Serialization(_))),
                }),
                None => true,
            })),
            ((match wire_obj(frame@) {
                Some(m) => sget_str(m, k_tag_instruction()) == Some(k_t_set_utool()) ==> (match
                    FrcSetUTool::sdecode(m) {
                    Some(pl) => r == Ok::<Self, FrcError>(Instruction::FrcSetUTool(pl)),
                    None => (r matches Err(FrcError::Serialization(_))),
                }),
                None => true,
            })),
            ((match wire_obj(frame@) {
                Some(m) => sget_str(m, k_tag_instruction()) == Some(k_t_wait_time()) ==> (match
                    FrcWaitTime::sdecode(m) {
                    Some(pl) => r == Ok::<Self, FrcError>(Instruction::FrcWaitTime(pl)),
                    None => (r matches Err(FrcError::Serialization(_))),
                }),
                None => true,
            })),
            ((match wire_obj(frame@) {
                Some(m) => sget_str(m, k_tag_instruction()) == Some(k_t_set_payload()) ==> (match
                    FrcSetPayLoad::sdecode(m) {
                    Some(pl) => r == Ok::<Self, FrcError>(Instruction::FrcSetPayLoad(pl)),
                    None => (r matches Err(FrcError::Serialization(_))),
                }),
                None => true,
            })),
            ((match wire_obj(frame@) {
                Some(m) => sget_str(m, k_tag_instruction()) == Some(k_t_call()) ==> (match r {
                    Ok(q) => (q matches Instruction::FrcCall(pl) && sget_i32(m, k_sequence_id()) == Some(pl.sequence_id) && sget_str(m, k_program_name()) == Some(pl.program_name@)),
                    Err(e) => (e matches FrcError::Serialization(_)) && (
                        sget_i32(m, k_sequence_id()) is None || sget_str(m, k_program_name()) is None),
                }),
                None => true,
            })),
            ((match wire_obj(frame@) {
                Some(m) => sget_str(m, k_tag_instruction()) == Some(k_t_linear_relative()) ==> (match
                    FrcLinearRelative::sdecode(m) {
                    Some(pl) => r == Ok::<Self, FrcError>(Instruction::FrcLinearRelative(pl)),
                    None => (r matches Err(FrcError::Serialization(_))),
                }),
                None => true,
            })),
            ((match wire_obj(frame@) {
                Some(m) => sget_str(m, k_tag_instruction()) == Some(k_t_circular_relative()) ==> (match
                    FrcCircularRelative::sdecode(m) {
                    Some(pl) => r == Ok::<Self, FrcError>(Instruction::FrcCircularRelative(pl)),
                    None => (r matches Err(FrcError::Serialization(_))),
                }),
                None => true,
            })),
            ((match wire_obj(frame@) {
                Some(m) => sget_str(m, k_tag_instruction()) == Some(k_t_joint_motion_jrep()) ==> (match
                    FrcJointMotionJRep::sdecode(m) {
                    Some(pl) => r == Ok::<Self, FrcError>(Instruction::FrcJointMotionJRep(pl)),
                    None => (r matches Err(FrcError::Serialization(_))),
                }),
                None => true,
            })),
    {
        let parsed = e_parse_jval(frame, 0, frame.len());
        let (jv, end) = match parsed {
            Some(vj) => vj,
            None => {
                proof {
                    assert forall|p: Instruction| p.wf() && frame@ == p.spec_wire() implies false by {
                        Instruction::lemma_wire_facts(p, frame@);
                    }
                }
                return Err(FrcError::Serialization("frame did not parse as a wire object".to_owned()));
            },
        };
        if end != frame.len() {
            proof {
                assert forall|p: Instruction| p.wf() && frame@ == p.spec_wire() implies false by {
                    Instruction::lemma_wire_facts(p, frame@);
                }
            }
            return Err(FrcError::Serialization("frame holds trailing bytes".to_owned()));
        }
        let ghost gv = jv.model();
        match jv {
            JVal::Obj(pairs) => {
                let tag = match get_str(&pairs, key_tag_instruction().as_slice()) {
                    Some(t) => t,
                    None => {
                        proof {
                            assert forall|p: Instruction| p.wf() && frame@ == p.spec_wire() implies false by {
                                Instruction::lemma_wire_facts(p, frame@);
                            }
                        }
                        return Err(FrcError::Serialization("frame names no discriminant".to_owned()));
                    },
                };
                let res: Result<Instruction, FrcError> = 
                if bytes_eq(tag.as_slice(), key_t_wait_din().as_slice()) {
                    match FrcWaitDIN::from_pairs(&pairs) {
                        Some(pl) => Ok(Instruction::FrcWaitDIN(pl)),
                        None => Err(FrcError::Serialization("FRC_WaitDIN fields did not decode".to_owned())),
                    }
                } else if bytes_eq(tag.as_slice(), key_t_set_uframe().as_slice()) {
                    match FrcSetUFrame::from_pairs(&pairs) {
                        Some(pl) => Ok(Instruction::FrcSetUFrame(pl)),
                        None => Err(FrcError::Serialization("FRC_SetUFrame fields did not decode".to_owned())),
                    }
                } else if bytes_eq(tag.as_slice(), key_t_set_utool().as_slice()) {
                    match FrcSetUTool::from_pairs(&pairs) {
                        Some(pl) => Ok(Instruction::FrcSetUTool(pl)),
                        None => Err(FrcError::Serialization("FRC_SetUTool fields did not decode".to_owned())),
                    }
                } else if bytes_eq(tag.as_slice(), key_t_wait_time().as_slice()) {
                    match FrcWaitTime::from_pairs(&pairs) {
                        Some(pl) => Ok(Instruction::FrcWaitTime(pl)),
                        None => Err(FrcError::Serialization("FRC_WaitTime fields did not decode".to_owned())),
                    }
                } else if bytes_eq(tag.as_slice(), key_t_set_payload().as_slice()) {
                    match FrcSetPayLoad::from_pairs(&pairs) {
                        Some(pl) => Ok(Instruction::FrcSetPayLoad(pl)),
                        None => Err(FrcError::Serialization("FRC_SetPayLoad fields did not decode".to_owned())),
                    }
                } else if bytes_eq(tag.as_slice(), key_t_call().as_slice()) {
                    match FrcCall::from_pairs(&pairs) {
                        Some(pl) => Ok(Instruction::FrcCall(pl)),
                        None => Err(FrcError::Serialization("FRC_Call fields did not decode".to_owned())),
                    }
                } else if bytes_eq(tag.as_slice(), key_t_linear_relative().as_slice()) {
                    match FrcLinearRelative::from_pairs(&pairs) {
                        Some(pl) => Ok(Instruction::FrcLinearRelative(pl)),
                        None => Err(FrcError::Serialization("FRC_LinearRelative fields did not decode".to_owned())),
                    }
                } else if bytes_eq(tag.as_slice(), key_t_circular_relative().as_slice()) {
                    match FrcCircularRelative::from_pairs(&pairs) {
                        Some(pl) => Ok(Instruction::FrcCircularRelative(pl)),
                        None => Err(FrcError::Serialization("FRC_CircularRelative fields did not decode".to_owned())),
                    }
                } else if bytes_eq(tag.as_slice(), key_t_joint_motion_jrep().as_slice()) {
                    match FrcJointMotionJRep::from_pairs(&pairs) {
                        Some(pl) => Ok(Instruction::FrcJointMotionJRep(pl)),
                        None => Err(FrcError::Serialization("FRC_JointMotionJRep fields did not decode".to_owned())),
                    }
                } else {
                    Err(FrcError::UnrecognizedPacket)
                };
                proof {
                    Instruction::lemma_tags_distinct();
                    assert(wire_obj(frame@) == Some(model_pairs(pairs@, 0)));
                    assert forall|p: Instruction| p.wf() && frame@ == p.spec_wire() implies (res matches Ok(q) && Instruction::pkt_eq(q, p)) by {
                        Instruction::lemma_wire_facts(p, frame@);
                        assert(gv == p.jval());
                        assert(model_pairs(pairs@, 0) == p.jpairs_full());
                        assert(tag@ == p.tag_name());
                        match p {
                            Instruction::FrcWaitDIN(pl) => {
                                pl.lemma_round_trip((k_tag_instruction(), JValM::Str(k_t_wait_din())));
                            },
                            Instruction::FrcSetUFrame(pl) => {
                                pl.lemma_round_trip((k_tag_instruction(), JValM::Str(k_t_set_uframe())));
                            },
                            Instruction::FrcSetUTool(pl) => {
                                pl.lemma_round_trip((k_tag_instruction(), JValM::Str(k_t_set_utool())));
                            },
                            Instruction::FrcWaitTime(pl) => {
                                pl.lemma_round_trip((k_tag_instruction(), JValM::Str(k_t_wait_time())));
                            },
                            Instruction::FrcSetPayLoad(pl) => {
                                pl.lemma_round_trip((k_tag_instruction(), JValM::Str(k_t_set_payload())));
                            },
                            Instruction::FrcCall(pl) => {
                                pl.lemma_round_trip((k_tag_instruction(), JValM::Str(k_t_call())));
                            },
                            Instruction::FrcLinearRelative(pl) => {
                                pl.lemma_round_trip((k_tag_instruction(), JValM::Str(k_t_linear_relative())));
                            },
                            Instruction::FrcCircularRelative(pl) => {
                                pl.lemma_round_trip((k_tag_instruction(), JValM::Str(k_t_circular_relative())));
                            },
                            Instruction::FrcJointMotionJRep(pl) => {
                                pl.lemma_round_trip((k_tag_instruction(), JValM::Str(k_t_joint_motion_jrep())));
                            },
                        }
                    }
                }
                res
            },
            _ => {
                proof {
                    assert forall|p: Instruction| p.wf() && frame@ == p.spec_wire() implies false by {
                        Instruction::lemma_wire_facts(p, frame@);
                    }
                }
                Err(FrcError::Serialization("frame is not a wire object".to_owned()))
            },
        }
    }
}

/// Responses to program steps, echoing the step's sequence identifier.
#[derive(Debug, Clone, PartialEq, Eq)]
pub enum InstructionResponse {
    FrcWaitDIN(FrcWaitDINResponse),
    FrcSetUFrame(FrcSetUFrameResponse),
    FrcSetUTool(FrcSetUToolResponse),
    FrcWaitTime(FrcWaitTimeResponse),
    FrcSetPayLoad(FrcSetPayLoadResponse),
    FrcCall(FrcCallResponse),
    FrcLinearRelative(FrcLinearRelativeResponse),
    FrcCircularRelative(FrcCircularRelativeResponse),
    FrcJointMotionJRep(FrcJointMotionJRepResponse),
}

impl InstructionResponse {
    /// The wire spelling of this packet's discriminant value.
    pub open spec fn tag_name(self) -> Seq<u8> {
        match self {
            InstructionResponse::FrcWaitDIN(_) => k_t_wait_din(),
            InstructionResponse::FrcSetUFrame(_) => k_t_set_uframe(),
            InstructionResponse::FrcSetUTool(_) => k_t_set_utool(),
            InstructionResponse::FrcWaitTime(_) => k_t_wait_time(),
            InstructionResponse::FrcSetPayLoad(_) => k_t_set_payload(),
            InstructionResponse::FrcCall(_) => k_t_call(),
            InstructionResponse::FrcLinearRelative(_) => k_t_linear_relative(),
            InstructionResponse::FrcCircularRelative(_) => k_t_circular_relative(),
            InstructionResponse::FrcJointMotionJRep(_) => k_t_joint_motion_jrep(),
        }
    }

    /// The payload's wire pairs; empty for bare discriminants.
    pub open spec fn payload_pairs(self) -> Seq<(Seq<u8>, JValM)> {
        match self {
            InstructionResponse::FrcWaitDIN(p) => p.jpairs(),
            InstructionResponse::FrcSetUFrame(p) => p.jpairs(),
            InstructionResponse::FrcSetUTool(p) => p.jpairs(),
            InstructionResponse::FrcWaitTime(p) => p.jpairs(),
            InstructionResponse::FrcSetPayLoad(p) => p.jpairs(),
            InstructionResponse::FrcCall(p) => p.jpairs(),
            InstructionResponse::FrcLinearRelative(p) => p.jpairs(),
            InstructionResponse::FrcCircularRelative(p) => p.jpairs(),
            InstructionResponse::FrcJointMotionJRep(p) => p.jpairs(),
        }
    }

    pub open spec fn wf(self) -> bool {
        match self {
            InstructionResponse::FrcWaitDIN(p) => p.wf(),
            InstructionResponse::FrcSetUFrame(p) => p.wf(),
            InstructionResponse::FrcSetUTool(p) => p.wf(),
            InstructionResponse::FrcWaitTime(p) => p.wf(),
            InstructionResponse::FrcSetPayLoad(p) => p.wf(),
            InstructionResponse::FrcCall(p) => p.wf(),
            InstructionResponse::FrcLinearRelative(p) => p.wf(),
            InstructionResponse::FrcCircularRelative(p) => p.wf(),
            InstructionResponse::FrcJointMotionJRep(p) => p.wf(),
        }
    }

    /// The discriminant pair followed by the payload's pairs.
    pub open spec fn jpairs_full(self) -> Seq<(Seq<u8>, JValM)> {
        seq![(k_tag_instruction(), JValM::Str(self.tag_name()))] + self.payload_pairs()
    }

    pub open spec fn jval(self) -> JValM {
        JValM::Obj(self.jpairs_full())
    }

    /// The exact JSON text of this packet, without the frame terminator.
    pub open spec fn spec_wire(self) -> Seq<u8> {
        print_jval(self.jval())
    }

    /// Packet equality; no byte-string fields, so plain equality.
    pub open spec fn pkt_eq(a: InstructionResponse, b: InstructionResponse) -> bool {
        a == b
    }

    /// Discriminant values this family recognizes.
    pub open spec fn known_tag(t: Seq<u8>) -> bool {
        ||| t == k_t_wait_din()
        ||| t == k_t_set_uframe()
        ||| t == k_t_set_utool()
        ||| t == k_t_wait_time()
        ||| t == k_t_set_payload()
        ||| t == k_t_call()
        ||| t == k_t_linear_relative()
        ||| t == k_t_circular_relative()
        ||| t == k_t_joint_motion_jrep()
    }

    pub proof fn lemma_wf(self)
        requires
            self.wf(),
        ensures
            jval_wf(self.jval()),
    {
        k_tag_instruction_ok();
        match self {
            InstructionResponse::FrcWaitDIN(p) => {
                k_t_wait_din_ok();
                p.lemma_wf();
                assert(jval_wf(JValM::Str(k_t_wait_din())));
                lemma_jpairs_wf_cons((k_tag_instruction(), JValM::Str(k_t_wait_din())), p.jpairs());
            },
            InstructionResponse::FrcSetUFrame(p) => {
                k_t_set_uframe_ok();
                p.lemma_wf();
                assert(jval_wf(JValM::Str(k_t_set_uframe())));
                lemma_jpairs_wf_cons((k_tag_instruction(), JValM::Str(k_t_set_uframe())), p.jpairs());
            },
            InstructionResponse::FrcSetUTool(p) => {
                k_t_set_utool_ok();
                p.lemma_wf();
                assert(jval_wf(JValM::Str(k_t_set_utool())));
                lemma_jpairs_wf_cons((k_tag_instruction(), JValM::Str(k_t_set_utool())), p.jpairs());
            },
            InstructionResponse::FrcWaitTime(p) => {
                k_t_wait_time_ok();
                p.lemma_wf();
                assert(jval_wf(JValM::Str(k_t_wait_time())));
                lemma_jpairs_wf_cons((k_tag_instruction(), JValM::Str(k_t_wait_time())), p.jpairs());
            },
            InstructionResponse::FrcSetPayLoad(p) => {
                k_t_set_payload_ok();
                p.lemma_wf();
                assert(jval_wf(JValM::Str(k_t_set_payload())));
                lemma_jpairs_wf_cons((k_tag_instruction(), JValM::Str(k_t_set_payload())), p.jpairs());
            },
            InstructionResponse::FrcCall(p) => {
                k_t_call_ok();
                p.lemma_wf();
                assert(jval_wf(JValM::Str(k_t_call())));
                lemma_jpairs_wf_cons((k_tag_instruction(), JValM::Str(k_t_call())), p.jpairs());
            },
            InstructionResponse::FrcLinearRelative(p) => {
                k_t_linear_relative_ok();
                p.lemma_wf();
                assert(jval_wf(JValM::Str(k_t_linear_relative())));
                lemma_jpairs_wf_cons((k_tag_instruction(), JValM::Str(k_t_linear_relative())), p.jpairs());
            },
            InstructionResponse::FrcCircularRelative(p) => {
                k_t_circular_relative_ok();
                p.lemma_wf();
                assert(jval_wf(JValM::Str(k_t_circular_relative())));
                lemma_jpairs_wf_cons((k_tag_instruction(), JValM::Str(k_t_circular_relative())), p.jpairs());
            },
            InstructionResponse::FrcJointMotionJRep(p) => {
                k_t_joint_motion_jrep_ok();
                p.lemma_wf();
                assert(jval_wf(JValM::Str(k_t_joint_motion_jrep())));
                lemma_jpairs_wf_cons((k_tag_instruction(), JValM::Str(k_t_joint_motion_jrep())), p.jpairs());
            },
        }
    }

    /// What the printed form of a packet parses to, and the
    /// discriminant its pairs carry.
    pub proof fn lemma_wire_facts(p: InstructionResponse, s: Seq<u8>)
        requires
            p.wf(),
            s == p.spec_wire(),
        ensures
            parse_jval(s, 0, s.len() as nat) == Some((p.jval(), s.len() as int)),
            sget_str(p.jpairs_full(), k_tag_instruction()) == Some(p.tag_name()),
    {
        p.lemma_wf();
        lemma_jval_size_le_print(p.jval());
        assert(s.subrange(0, s.len() as int) =~= s);
        lemma_parse_print_jval(p.jval(), s, 0, s.len() as nat);
        let m = p.jpairs_full();
        assert(m[0] == (k_tag_instruction(), JValM::Str(p.tag_name())));
        lemma_slookup_at(m, k_tag_instruction(), 0);
    }

    /// No two discriminant spellings of this family coincide.
    pub proof fn lemma_tags_distinct()
        ensures
            k_t_wait_din() != k_t_set_uframe(),
            k_t_wait_din() != k_t_set_utool(),
            k_t_wait_din() != k_t_wait_time(),
            k_t_wait_din() != k_t_set_payload(),
            k_t_wait_din() != k_t_call(),
            k_t_wait_din() != k_t_linear_relative(),
            k_t_wait_din() != k_t_circular_relative(),
            k_t_wait_din() != k_t_joint_motion_jrep(),
            k_t_set_uframe() != k_t_set_utool(),
            k_t_set_uframe() != k_t_wait_time(),
            k_t_set_uframe() != k_t_set_payload(),
            k_t_set_uframe() != k_t_call(),
            k_t_set_uframe() != k_t_linear_relative(),
            k_t_set_uframe() != k_t_circular_relative(),
            k_t_set_uframe() != k_t_joint_motion_jrep(),
            k_t_set_utool() != k_t_wait_time(),
            k_t_set_utool() != k_t_set_payload(),
            k_t_set_utool() != k_t_call(),
            k_t_set_utool() != k_t_linear_relative(),
            k_t_set_utool() != k_t_circular_relative(),
            k_t_set_utool() != k_t_joint_motion_jrep(),
            k_t_wait_time() != k_t_set_payload(),
            k_t_wait_time() != k_t_call(),
            k_t_wait_time() != k_t_linear_relative(),
            k_t_wait_time() != k_t_circular_relative(),
            k_t_wait_time() != k_t_joint_motion_jrep(),
            k_t_set_payload() != k_t_call(),
            k_t_set_payload() != k_t_linear_relative(),
            k_t_set_payload() != k_t_circular_relative(),
            k_t_set_payload() != k_t_joint_motion_jrep(),
            k_t_call() != k_t_linear_relative(),
            k_t_call() != k_t_circular_relative(),
            k_t_call() != k_t_joint_motion_jrep(),
            k_t_linear_relative() != k_t_circular_relative(),
            k_t_linear_relative() != k_t_joint_motion_jrep(),
            k_t_circular_relative() != k_t_joint_motion_jrep(),
    {
        assert(k_t_wait_din().len() != k_t_set_uframe().len());
        assert(k_t_wait_din().len() != k_t_set_utool().len());
        assert(k_t_wait_din().len() != k_t_wait_time().len());
        assert(k_t_wait_din().len() != k_t_set_payload().len());
        assert(k_t_wait_din().len() != k_t_call().len());
        assert(k_t_wait_din().len() != k_t_linear_relative().len());
        assert(k_t_wait_din().len() != k_t_circular_relative().len());
        assert(k_t_wait_din().len() != k_t_joint_motion_jrep().len());
        assert(k_t_set_uframe().len() != k_t_set_utool().len());
        assert(k_t_set_uframe().len() != k_t_wait_time().len());
        assert(k_t_set_uframe().len() != k_t_set_payload().len());
        assert(k_t_set_uframe().len() != k_t_call().len());
        assert(k_t_set_uframe().len() != k_t_linear_relative().len());
        assert(k_t_set_uframe().len() != k_t_circular_relative().len());
        assert(k_t_set_uframe().len() != k_t_joint_motion_jrep().len());
        assert(k_t_set_utool()[4] != k_t_wait_time()[4]);
        assert(k_t_set_utool().len() != k_t_set_payload().len());
        assert(k_t_set_utool().len() != k_t_call().len());
        assert(k_t_set_utool().len() != k_t_linear_relative().len());
        assert(k_t_set_utool().len() != k_t_circular_relative().len());
        assert(k_t_set_utool().len() != k_t_joint_motion_jrep().len());
        assert(k_t_wait_time().len() != k_t_set_payload().len());
        assert(k_t_wait_time().len() != k_t_call().len());
        assert(k_t_wait_time().len() != k_t_linear_relative().len());
        assert(k_t_wait_time().len() != k_t_circular_relative().len());
        assert(k_t_wait_time().len() != k_t_joint_motion_jrep().len());
        assert(k_t_set_payload().len() != k_t_call().len());
        assert(k_t_set_payload().len() != k_t_linear_relative().len());
        assert(k_t_set_payload().len() != k_t_circular_relative().len());
        assert(k_t_set_payload().len() != k_t_joint_motion_jrep().len());
        assert(k_t_call().len() != k_t_linear_relative().len());
        assert(k_t_call().len() != k_t_circular_relative().len());
        assert(k_t_call().len() != k_t_joint_motion_jrep().len());
        assert(k_t_linear_relative().len() != k_t_circular_relative().len());
        assert(k_t_linear_relative().len() != k_t_joint_motion_jrep().len());
        assert(k_t_circular_relative().len() != k_t_joint_motion_jrep().len());
    }

    /// The wire bytes of this packet: its JSON text followed by the
    /// carriage-return line-feed frame terminator.
    pub fn encode(&self) -> (r: Vec<u8>)
        requires
            self.wf(),
        ensures
            r@ == self.spec_wire() + seq![13u8, 10u8],
    {
        let mut pairs: Vec<(Vec<u8>, JVal)> = Vec::new();
        match self {
            InstructionResponse::FrcWaitDIN(p) => {
                push_field_str(&mut pairs, key_tag_instruction(), key_t_wait_din().as_slice());
                p.push_pairs(&mut pairs);
                proof {
                    assert(model_pairs(pairs@, 0) =~= self.jpairs_full());
                }
            },
            InstructionResponse::FrcSetUFrame(p) => {
                push_field_str(&mut pairs, key_tag_instruction(), key_t_set_uframe().as_slice());
                p.push_pairs(&mut pairs);
                proof {
                    assert(model_pairs(pairs@, 0) =~= self.jpairs_full());
                }
            },
            InstructionResponse::FrcSetUTool(p) => {
                push_field_str(&mut pairs, key_tag_instruction(), key_t_set_utool().as_slice());
                p.push_pairs(&mut pairs);
                proof {
                    assert(model_pairs(pairs@, 0) =~= self.jpairs_full());
                }
            },
            InstructionResponse::FrcWaitTime(p) => {
                push_field_str(&mut pairs, key_tag_instruction(), key_t_wait_time().as_slice());
                p.push_pairs(&mut pairs);
                proof {
                    assert(model_pairs(pairs@, 0) =~= self.jpairs_full());
                }
            },
            InstructionResponse::FrcSetPayLoad(p) => {
                push_field_str(&mut pairs, key_tag_instruction(), key_t_set_payload().as_slice());
                p.push_pairs(&mut pairs);
                proof {
                    assert(model_pairs(pairs@, 0) =~= self.jpairs_full());
                }
            },
            InstructionResponse::FrcCall(p) => {
                push_field_str(&mut pairs, key_tag_instruction(), key_t_call().as_slice());
                p.push_pairs(&mut pairs);
                proof {
                    assert(model_pairs(pairs@, 0) =~= self.jpairs_full());
                }
            },
            InstructionResponse::FrcLinearRelative(p) => {
                push_field_str(&mut pairs, key_tag_instruction(), key_t_linear_relative().as_slice());
                p.push_pairs(&mut pairs);
                proof {
                    assert(model_pairs(pairs@, 0) =~= self.jpairs_full());
                }
            },
            InstructionResponse::FrcCircularRelative(p) => {
                push_field_str(&mut pairs, key_tag_instruction(), key_t_circular_relative().as_slice());
                p.push_pairs(&mut pairs);
                proof {
                    assert(model_pairs(pairs@, 0) =~= self.jpairs_full());
                }
            },
            InstructionResponse::FrcJointMotionJRep(p) => {
                push_field_str(&mut pairs, key_tag_instruction(), key_t_joint_motion_jrep().as_slice());
                p.push_pairs(&mut pairs);
                proof {
                    assert(model_pairs(pairs@, 0) =~= self.jpairs_full());
                }
            },
        }
        let v = JVal::Obj(pairs);
        let mut out: Vec<u8> = Vec::new();
        e_print_jval(&v, &mut out);
        out.push(13);
        out.push(10);
        proof {
            assert(out@ =~= self.spec_wire() + seq![13u8, 10u8]);
        }
        out
    }

    /// Decodes one frame (without its terminator).
    ///
    /// Decoding what `encode` produced yields the packet back. More
    /// generally, any frame that parses as one whole object with a
    /// known discriminant decodes by field name alone: unknown extra
    /// pairs and any pair order are accepted. An unknown discriminant
    /// is reported as such; bytes that are no wire object at all, an
    /// object without a discriminant, and missing or ill-typed fields
    /// are reported as serialization failures. Never a panic.
    #[verifier::rlimit(100)]
    pub fn decode(frame: &[u8]) -> (r: Result<InstructionResponse, FrcError>)
        ensures
            (forall|p: InstructionResponse| #![auto] p.wf() && frame@ == p.spec_wire() ==> (r matches Ok(q) && InstructionResponse::pkt_eq(q, p))),
            (wire_obj(frame@) is None ==> (r matches Err(FrcError::Serialization(_)))),
            ((match wire_obj(frame@) {
                Some(m) => sget_str(m, k_tag_instruction()) is None ==> (r matches Err(
                    FrcError::Serialization(_),
                )),
                None => true,
            })),
            ((match wire_obj(frame@) {
                Some(m) => (match sget_str(m, k_tag_instruction()) {
                    Some(t) => !InstructionResponse::known_tag(t) ==> r == Err::<Self, FrcError>(
                        FrcError::UnrecognizedPacket,
                    ),
                    None => true,
                }),
                None => true,
            })),
            ((r matches Ok(q) ==> (wire_obj(frame@) matches Some(m) && sget_str(m, k_tag_instruction())
                == Some(q.tag_name())))),
            ((match wire_obj(frame@) {
                Some(m) => sget_str(m, k_tag_instruction()) == Some(k_t_wait_din()) ==> (match
                    FrcWaitDINResponse::sdecode(m) {
                    Some(pl) => r == Ok::<Self, FrcError>(InstructionResponse::FrcWaitDIN(pl)),
                    None => (r matches Err(FrcError::Serialization(_))),
                }),
                None => true,
            })),
            ((match wire_obj(frame@) {
                Some(m) => sget_str(m, k_tag_instruction()) == Some(k_t_set_uframe()) ==> (match
                    FrcSetUFrameResponse::sdecode(m) {
                    Some(pl) => r == Ok::<Self, FrcError>(InstructionResponse::FrcSetUFrame(pl)),
                    None => (r matches Err(FrcError::Serialization(_))),
                }),
                None => true,
            })),
            ((match wire_obj(frame@) {
                Some(m) => sget_str(m, k_tag_instruction()) == Some(k_t_set_utool()) ==> (match
                    FrcSetUToolResponse::sdecode(m) {
                    Some(pl) => r == Ok::<Self, FrcError>(InstructionResponse::FrcSetUTool(pl)),
                    None => (r matches Err(FrcError::Serialization(_))),
                }),
                None => true,
            })),
            ((match wire_obj(frame@) {
                Some(m) => sget_str(m, k_tag_instruction()) == Some(k_t_wait_time()) ==> (match
                    FrcWaitTimeResponse::sdecode(m) {
                    Some(pl) => r == Ok::<Self, FrcError>(InstructionResponse::FrcWaitTime(pl)),
                    None => (r matches Err(FrcError::Serialization(_))),
                }),
                None => true,
            })),
            ((match wire_obj(frame@) {
                Some(m) => sget_str(m, k_tag_instruction()) == Some(k_t_set_payload()) ==> (match
                    FrcSetPayLoadResponse::sdecode(m) {
                    Some(pl) => r == Ok::<Self, FrcError>(InstructionResponse::FrcSetPayLoad(pl)),
                    None => (r matches Err(FrcError::Serialization(_))),
                }),
                None => true,
            })),
            ((match wire_obj(frame@) {
                Some(m) => sget_str(m, k_tag_instruction()) == Some(k_t_call()) ==> (match
                    FrcCallResponse::sdecode(m) {
                    Some(pl) => r == Ok::<Self, FrcError>(InstructionResponse::FrcCall(pl)),
                    None => (r matches Err(FrcError::Serialization(_))),
                }),
                None => true,
            })),
            ((match wire_obj(frame@) {
                Some(m) => sget_str(m, k_tag_instruction()) == Some(k_t_linear_relative()) ==> (match
                    FrcLinearRelativeResponse::sdecode(m) {
                    Some(pl) => r == Ok::<Self, FrcError>(InstructionResponse::FrcLinearRelative(pl)),
                    None => (r matches Err(FrcError::Serialization(_))),
                }),
                None => true,
            })),
            ((match wire_obj(frame@) {
                Some(m) => sget_str(m, k_tag_instruction()) == Some(k_t_circular_relative()) ==> (match
                    FrcCircularRelativeResponse::sdecode(m) {
                    Some(pl) => r == Ok::<Self, FrcError>(InstructionResponse::FrcCircularRelative(pl)),
                    None => (r matches Err(FrcError::Serialization(_))),
                }),
                None => true,
            })),
            ((match wire_obj(frame@) {
                Some(m) => sget_str(m, k_tag_instruction()) == Some(k_t_joint_motion_jrep()) ==> (match
                    FrcJointMotionJRepResponse::sdecode(m) {
                    Some(pl) => r == Ok::<Self, FrcError>(InstructionResponse::FrcJointMotionJRep(pl)),
                    None => (r matches Err(FrcError::Serialization(_))),
                }),
                None => true,
            })),
    {
        let parsed = e_parse_jval(frame, 0, frame.len());
        let (jv, end) = match parsed {
            Some(vj) => vj,
            None => {
                proof {
                    assert forall|p: InstructionResponse| p.wf() && frame@ == p.spec_wire() implies false by {
                        InstructionResponse::lemma_wire_facts(p, frame@);
                    }
                }
                return Err(FrcError::Serialization("frame did not parse as a wire object".to_owned()));
            },
        };
        if end != frame.len() {
            proof {
                assert forall|p: InstructionResponse| p.wf() && frame@ == p.spec_wire() implies false by {
                    InstructionResponse::lemma_wire_facts(p, frame@);
                }
            }
            return Err(FrcError::Serialization("frame holds trailing bytes".to_owned()));
        }
        let ghost gv = jv.model();
        match jv {
            JVal::Obj(pairs) => {
                let tag = match get_str(&pairs, key_tag_instruction().as_slice()) {
                    Some(t) => t,
                    None => {
                        proof {
                            assert forall|p: InstructionResponse| p.wf() && frame@ == p.spec_wire() implies false by {
                                InstructionResponse::lemma_wire_facts(p, frame@);
                            }
                        }
                        return Err(FrcError::Serialization("frame names no discriminant".to_owned()));
                    },
                };
                let res: Result<InstructionResponse, FrcError> = 
                if bytes_eq(tag.as_slice(), key_t_wait_din().as_slice()) {
                    match FrcWaitDINResponse::from_pairs(&pairs) {
                        Some(pl) => Ok(InstructionResponse::FrcWaitDIN(pl)),
                        None => Err(FrcError::Serialization("FRC_WaitDIN fields did not decode".to_owned())),
                    }
                } else if bytes_eq(tag.as_slice(), key_t_set_uframe().as_slice()) {
                    match FrcSetUFrameResponse::from_pairs(&pairs) {
                        Some(pl) => Ok(InstructionResponse::FrcSetUFrame(pl)),
                        None => Err(FrcError::Serialization("FRC_SetUFrame fields did not decode".to_owned())),
                    }
                } else if bytes_eq(tag.as_slice(), key_t_set_utool().as_slice()) {
                    match FrcSetUToolResponse::from_pairs(&pairs) {
                        Some(pl) => Ok(InstructionResponse::FrcSetUTool(pl)),
                        None => Err(FrcError::Serialization("FRC_SetUTool fields did not decode".to_owned())),
                    }
                } else if bytes_eq(tag.as_slice(), key_t_wait_time().as_slice()) {
                    match FrcWaitTimeResponse::from_pairs(&pairs) {
                        Some(pl) => Ok(InstructionResponse::FrcWaitTime(pl)),
                        None => Err(FrcError::Serialization("FRC_WaitTime fields did not decode".to_owned())),
                    }
                } else if bytes_eq(tag.as_slice(), key_t_set_payload().as_slice()) {
                    match FrcSetPayLoadResponse::from_pairs(&pairs) {
                        Some(pl) => Ok(InstructionResponse::FrcSetPayLoad(pl)),
                        None => Err(FrcError::Serialization("FRC_SetPayLoad fields did not decode".to_owned())),
                    }
                } else if bytes_eq(tag.as_slice(), key_t_call().as_slice()) {
                    match FrcCallResponse::from_pairs(&pairs) {
                        Some(pl) => Ok(InstructionResponse::FrcCall(pl)),
                        None => Err(FrcError::Serialization("FRC_Call fields did not decode".to_owned())),
                    }
                } else if bytes_eq(tag.as_slice(), key_t_linear_relative().as_slice()) {
                    match FrcLinearRelativeResponse::from_pairs(&pairs) {
                        Some(pl) => Ok(InstructionResponse::FrcLinearRelative(pl)),
                        None => Err(FrcError::Serialization("FRC_LinearRelative fields did not decode".to_owned())),
                    }
                } else if bytes_eq(tag.as_slice(), key_t_circular_relative().as_slice()) {
                    match FrcCircularRelativeResponse::from_pairs(&pairs) {
                        Some(pl) => Ok(InstructionResponse::FrcCircularRelative(pl)),
                        None => Err(FrcError::Serialization("FRC_CircularRelative fields did not decode".to_owned())),
                    }
                } else if bytes_eq(tag.as_slice(), key_t_joint_motion_jrep().as_slice()) {
                    match FrcJointMotionJRepResponse::from_pairs(&pairs) {
                        Some(pl) => Ok(InstructionResponse::FrcJointMotionJRep(pl)),
                        None => Err(FrcError::Serialization("FRC_JointMotionJRep fields did not decode".to_owned())),
                    }
                } else {
                    Err(FrcError::UnrecognizedPacket)
                };
                proof {
                    InstructionResponse::lemma_tags_distinct();
                    assert(wire_obj(frame@) == Some(model_pairs(pairs@, 0)));
                    assert forall|p: InstructionResponse| p.wf() && frame@ == p.spec_wire() implies (res matches Ok(q) && InstructionResponse::pkt_eq(q, p)) by {
                        InstructionResponse::lemma_wire_facts(p, frame@);
                        assert(gv == p.jval());
                        assert(model_pairs(pairs@, 0) == p.jpairs_full());
                        assert(tag@ == p.tag_name());
                        match p {
                            InstructionResponse::FrcWaitDIN(pl) => {
                                pl.lemma_round_trip((k_tag_instruction(), JValM::Str(k_t_wait_din())));
                            },
                            InstructionResponse::FrcSetUFrame(pl) => {
                                pl.lemma_round_trip((k_tag_instruction(), JValM::Str(k_t_set_uframe())));
                            },
                            InstructionResponse::FrcSetUTool(pl) => {
                                pl.lemma_round_trip((k_tag_instruction(), JValM::Str(k_t_set_utool())));
                            },
                            InstructionResponse::FrcWaitTime(pl) => {
                                pl.lemma_round_trip((k_tag_instruction(), JValM::Str(k_t_wait_time())));
                            },
                            InstructionResponse::FrcSetPayLoad(pl) => {
                                pl.lemma_round_trip((k_tag_instruction(), JValM::Str(k_t_set_payload())));
                            },
                            InstructionResponse::FrcCall(pl) => {
                                pl.lemma_round_trip((k_tag_instruction(), JValM::Str(k_t_call())));
                            },
                            InstructionResponse::FrcLinearRelative(pl) => {
                                pl.lemma_round_trip((k_tag_instruction(), JValM::Str(k_t_linear_relative())));
                            },
                            InstructionResponse::FrcCircularRelative(pl) => {
                                pl.lemma_round_trip((k_tag_instruction(), JValM::Str(k_t_circular_relative())));
                            },
                            InstructionResponse::FrcJointMotionJRep(pl) => {
                                pl.lemma_round_trip((k_tag_instruction(), JValM::Str(k_t_joint_motion_jrep())));
                            },
                        }
                    }
                }
                res
            },
            _ => {
                proof {
                    assert forall|p: InstructionResponse| p.wf() && frame@ == p.spec_wire() implies false by {
                        InstructionResponse::lemma_wire_facts(p, frame@);
                    }
                }
                Err(FrcError::Serialization("frame is not a wire object".to_owned()))
            },
        }
    }
}

impl InstructionResponse {
    /// The echoed sequence identifier; a negative one (possible only in
    /// the few signed response shapes) stands in as zero.
    pub open spec fn spec_sequence_id(self) -> u32 {
        match self {
            InstructionResponse::FrcWaitDIN(resp) => resp.sequence_id,
            InstructionResponse::FrcSetUFrame(resp) => resp.sequence_id,
            InstructionResponse::FrcSetUTool(resp) => if resp.sequence_id >= 0 {
                resp.sequence_id as u32
            } else {
                0u32
            },
            InstructionResponse::FrcWaitTime(resp) => if resp.sequence_id >= 0 {
                resp.sequence_id as u32
            } else {
                0u32
            },
            InstructionResponse::FrcSetPayLoad(resp) => if resp.sequence_id >= 0 {
                resp.sequence_id as u32
            } else {
                0u32
            },
            InstructionResponse::FrcCall(resp) => if resp.sequence_id >= 0 {
                resp.sequence_id as u32
            } else {
                0u32
            },
            InstructionResponse::FrcLinearRelative(resp) => resp.sequence_id,
            InstructionResponse::FrcCircularRelative(resp) => resp.sequence_id,
            InstructionResponse::FrcJointMotionJRep(resp) => resp.sequence_id,
        }
    }

    pub fn get_sequence_id(&self) -> (r: u32)
        ensures
            r == self.spec_sequence_id(),
    {
        match self {
            InstructionResponse::FrcWaitDIN(resp) => resp.sequence_id,
            InstructionResponse::FrcSetUFrame(resp) => resp.sequence_id,
            InstructionResponse::FrcSetUTool(resp) => if resp.sequence_id >= 0 {
                resp.sequence_id as u32
            } else {
                0
            },
            InstructionResponse::FrcWaitTime(resp) => if resp.sequence_id >= 0 {
                resp.sequence_id as u32
            } else {
                0
            },
            InstructionResponse::FrcSetPayLoad(resp) => if resp.sequence_id >= 0 {
                resp.sequence_id as u32
            } else {
                0
            },
            InstructionResponse::FrcCall(resp) => if resp.sequence_id >= 0 {
                resp.sequence_id as u32
            } else {
                0
            },
            InstructionResponse::FrcLinearRelative(resp) => resp.sequence_id,
            InstructionResponse::FrcCircularRelative(resp) => resp.sequence_id,
            InstructionResponse::FrcJointMotionJRep(resp) => resp.sequence_id,
        }
    }

    /// The fault code the response carries; zero is success.
    pub open spec fn spec_error_id(self) -> u32 {
        match self {
            InstructionResponse::FrcWaitDIN(resp) => resp.error_id,
            InstructionResponse::FrcSetUFrame(resp) => resp.error_id,
            InstructionResponse::FrcSetUTool(resp) => resp.error_id,
            InstructionResponse::FrcWaitTime(resp) => resp.error_id,
            InstructionResponse::FrcSetPayLoad(resp) => resp.error_id,
            InstructionResponse::FrcCall(resp) => resp.error_id,
            InstructionResponse::FrcLinearRelative(resp) => resp.error_id,
            InstructionResponse::FrcCircularRelative(resp) => resp.error_id,
            InstructionResponse::FrcJointMotionJRep(resp) => resp.error_id,
        }
    }

    pub fn get_error_id(&self) -> (r: u32)
        ensures
            r == self.spec_error_id(),
    {
        match self {
            InstructionResponse::FrcWaitDIN(resp) => resp.error_id,
            InstructionResponse::FrcSetUFrame(resp) => resp.error_id,
            InstructionResponse::FrcSetUTool(resp) => resp.error_id,
            InstructionResponse::FrcWaitTime(resp) => resp.error_id,
            InstructionResponse::FrcSetPayLoad(resp) => resp.error_id,
            InstructionResponse::FrcCall(resp) => resp.error_id,
            InstructionResponse::FrcLinearRelative(resp) => resp.error_id,
            InstructionResponse::FrcCircularRelative(resp) => resp.error_id,
            InstructionResponse::FrcJointMotionJRep(resp) => resp.error_id,
        }
    }
}

impl Instruction {
    /// The caller-assigned sequence identifier this program step
    /// carries; a negative one (possible only in the signed shapes)
    /// stands in as zero.
    pub open spec fn spec_sequence_id(self) -> u32 {
        match self {
            Instruction::FrcWaitDIN(p) => if p.sequence_id >= 0 {
                p.sequence_id as u32
            } else {
                0u32
            },
            Instruction::FrcSetUFrame(p) => if p.sequence_id >= 0 {
                p.sequence_id as u32
            } else {
                0u32
            },
            Instruction::FrcSetUTool(p) => if p.sequence_id >= 0 {
                p.sequence_id as u32
            } else {
                0u32
            },
            Instruction::FrcWaitTime(p) => if p.sequence_id >= 0 {
                p.sequence_id as u32
            } else {
                0u32
            },
            Instruction::FrcSetPayLoad(p) => if p.sequence_id >= 0 {
                p.sequence_id as u32
            } else {
                0u32
            },
            Instruction::FrcCall(p) => if p.sequence_id >= 0 {
                p.sequence_id as u32
            } else {
                0u32
            },
            Instruction::FrcLinearRelative(p) => p.sequence_id,
            Instruction::FrcCircularRelative(p) => p.sequence_id,
            Instruction::FrcJointMotionJRep(p) => p.sequence_id,
        }
    }

    pub fn sequence_id(&self) -> (r: u32)
        ensures
            r == self.spec_sequence_id(),
    {
        match self {
            Instruction::FrcWaitDIN(p) => if p.sequence_id >= 0 {
                p.sequence_id as u32
            } else {
                0
            },
            Instruction::FrcSetUFrame(p) => if p.sequence_id >= 0 {
                p.sequence_id as u32
            } else {
                0
            },
            Instruction::FrcSetUTool(p) => if p.sequence_id >= 0 {
                p.sequence_id as u32
            } else {
                0
            },
            Instruction::FrcWaitTime(p) => if p.sequence_id >= 0 {
                p.sequence_id as u32
            } else {
                0
            },
            Instruction::FrcSetPayLoad(p) => if p.sequence_id >= 0 {
                p.sequence_id as u32
            } else {
                0
            },
            Instruction::FrcCall(p) => if p.sequence_id >= 0 {
                p.sequence_id as u32
            } else {
                0
            },
            Instruction::FrcLinearRelative(p) => p.sequence_id,
            Instruction::FrcCircularRelative(p) => p.sequence_id,
            Instruction::FrcJointMotionJRep(p) => p.sequence_id,
        }
    }
}

} // verus!
