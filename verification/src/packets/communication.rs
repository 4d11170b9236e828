//! Session-lifecycle packets: connect, disconnect, terminate and the
//! controller's system-fault notice. The connect response carries the
//! session port the client must reconnect to.

use vstd::prelude::*;
use crate::json::{
    model_pairs, jnum_of_nat, JVal, JValM, sget_u8, sget_u16, sget_u32, sget_str, get_u8,
    get_u16, get_u32, get_str, jpairs_wf, jval_wf, str_ok, lemma_slookup_at,
    lemma_jpairs_wf_cons, lemma_jval_size_le_print, lemma_parse_print_jval, parse_jval,
    e_parse_jval, e_print_jval, bytes_eq, print_jval, wire_obj,
};
use crate::keys::{
    k_error_id,
    k_error_id_ok,
    k_major_version,
    k_major_version_ok,
    k_minor_version,
    k_minor_version_ok,
    k_port_number,
    k_port_number_ok,
    k_sequence_id,
    k_sequence_id_ok,
    k_t_connect,
    k_t_connect_ok,
    k_t_disconnect,
    k_t_disconnect_ok,
    k_t_system_fault,
    k_t_system_fault_ok,
    k_t_terminate,
    k_t_terminate_ok,
    k_tag_communication,
    k_tag_communication_ok,
    key_error_id,
    key_major_version,
    key_minor_version,
    key_port_number,
    key_sequence_id,
    key_t_connect,
    key_t_disconnect,
    key_t_system_fault,
    key_t_terminate,
    key_tag_communication,
};
use crate::wire::{push_field_str, push_field_u32, push_field_i32, push_field_dec, push_field_obj, opt_or_one};
use crate::FrcError;

verus! {


/// Response to a connect request, carrying the session port number.
#[derive(Debug, Clone, Copy, PartialEq, Eq, Structural)]
pub struct FrcConnectResponse {
    pub error_id: u32,
    pub port_number: u32,
    pub major_version: u16,
    pub minor_version: u16,
}

impl FrcConnectResponse {
    /// The wire pairs of this value, in declaration order.
    pub open spec fn jpairs(self) -> Seq<(Seq<u8>, JValM)> {
        seq![
            (k_error_id(), JValM::Num(jnum_of_nat(self.error_id as nat))),
            (k_port_number(), JValM::Num(jnum_of_nat(self.port_number as nat))),
            (k_major_version(), JValM::Num(jnum_of_nat(self.major_version as nat))),
            (k_minor_version(), JValM::Num(jnum_of_nat(self.minor_version as nat))),
        ]
    }

    pub open spec fn wf(self) -> bool {
        true
    }

    /// Reads this value out of an object's pairs, by key;
    /// unknown pairs are ignored, a missing or ill-typed field fails.
    pub open spec fn sdecode(m: Seq<(Seq<u8>, JValM)>) -> Option<FrcConnectResponse> {
        match sget_u32(m, k_error_id()) {
            Some(error_id) => 
            match sget_u32(m, k_port_number()) {
                Some(port_number) => 
                match sget_u16(m, k_major_version()) {
                    Some(major_version) => 
                    match sget_u16(m, k_minor_version()) {
                        Some(minor_version) => 
                        Some(FrcConnectResponse { error_id, port_number, major_version, minor_version }),
                        None => None,
                    },
                    None => None,
                },
                None => None,
            },
            None => None,
        }
    }

    pub fn push_pairs(&self, out: &mut Vec<(Vec<u8>, JVal)>)
        ensures
            model_pairs(final(out)@, 0) == model_pairs(old(out)@, 0) + self.jpairs(),
    {
        push_field_u32(out, key_error_id(), self.error_id as u32);
        push_field_u32(out, key_port_number(), self.port_number as u32);
        push_field_u32(out, key_major_version(), self.major_version as u32);
        push_field_u32(out, key_minor_version(), self.minor_version as u32);
        proof {
            assert(model_pairs(out@, 0) =~= model_pairs(old(out)@, 0) + self.jpairs());
        }
    }

    pub fn from_pairs(pairs: &Vec<(Vec<u8>, JVal)>) -> (r: Option<FrcConnectResponse>)
        ensures
            r == Self::sdecode(model_pairs(pairs@, 0)),
    {
        let error_id = match get_u32(pairs, key_error_id().as_slice()) {
            Some(v) => v,
            None => {
                return None;
            },
        };
        let port_number = match get_u32(pairs, key_port_number().as_slice()) {
            Some(v) => v,
            None => {
                return None;
            },
        };
        let major_version = match get_u16(pairs, key_major_version().as_slice()) {
            Some(v) => v,
            None => {
                return None;
            },
        };
        let minor_version = match get_u16(pairs, key_minor_version().as_slice()) {
            Some(v) => v,
            None => {
                return None;
            },
        };
        Some(FrcConnectResponse { error_id, port_number, major_version, minor_version })
    }

    pub proof fn lemma_wf(self)
        ensures
            jpairs_wf(self.jpairs(), 0),
    {
        let m = self.jpairs();
        k_error_id_ok();
        k_port_number_ok();
        k_major_version_ok();
        k_minor_version_ok();
        crate::json::lemma_num_u64_round_trip(self.error_id as nat);
        crate::json::lemma_num_u64_round_trip(self.port_number as nat);
        crate::json::lemma_num_u64_round_trip(self.major_version as nat);
        crate::json::lemma_num_u64_round_trip(self.minor_version as nat);
        assert(jval_wf(JValM::Num(jnum_of_nat(self.error_id as nat))));
        assert(jval_wf(JValM::Num(jnum_of_nat(self.port_number as nat))));
        assert(jval_wf(JValM::Num(jnum_of_nat(self.major_version as nat))));
        assert(jval_wf(JValM::Num(jnum_of_nat(self.minor_version as nat))));
        assert(jpairs_wf(m, 4));
        assert(jpairs_wf(m, 3));
        assert(jpairs_wf(m, 2));
        assert(jpairs_wf(m, 1));
        assert(jpairs_wf(m, 0));
    }

    /// Reading back the pairs this value prints yields it again,
    /// whatever single pair (the discriminant) stands in front.
    pub proof fn lemma_round_trip(self, front: (Seq<u8>, JValM))
        requires
            front.0 == k_tag_communication(),
        ensures
            Self::sdecode(seq![front] + self.jpairs()) == Some(self),
    {
        let m = seq![front] + self.jpairs();
        // field `error_id`
        assert(m[1].0 == k_error_id());
        assert forall|j: int| 0 <= j < 1 implies m[j].0 != k_error_id() by {
            if j == 0 {
                assert(k_tag_communication().len() != k_error_id().len());
            } else {
            }
        }
        lemma_slookup_at(m, k_error_id(), 1);
        crate::json::lemma_num_u64_round_trip(self.error_id as nat);
        assert(sget_u32(m, k_error_id()) == Some(self.error_id));
        // field `port_number`
        assert(m[2].0 == k_port_number());
        assert forall|j: int| 0 <= j < 2 implies m[j].0 != k_port_number() by {
            if j == 0 {
                assert(k_tag_communication().len() != k_port_number().len());
            } else if j == 1 {
                assert(k_error_id().len() != k_port_number().len());
            } else {
            }
        }
        lemma_slookup_at(m, k_port_number(), 2);
        crate::json::lemma_num_u64_round_trip(self.port_number as nat);
        assert(sget_u32(m, k_port_number()) == Some(self.port_number));
        // field `major_version`
        assert(m[3].0 == k_major_version());
        assert forall|j: int| 0 <= j < 3 implies m[j].0 != k_major_version() by {
            if j == 0 {
                assert(k_tag_communication().len() != k_major_version().len());
            } else if j == 1 {
                assert(k_error_id().len() != k_major_version().len());
            } else if j == 2 {
                assert(k_port_number().len() != k_major_version().len());
            } else {
            }
        }
        lemma_slookup_at(m, k_major_version(), 3);
        crate::json::lemma_num_u64_round_trip(self.major_version as nat);
        assert(sget_u16(m, k_major_version()) == Some(self.major_version));
        // field `minor_version`
        assert(m[4].0 == k_minor_version());
        assert forall|j: int| 0 <= j < 4 implies m[j].0 != k_minor_version() by {
            if j == 0 {
                assert(k_tag_communication().len() != k_minor_version().len());
            } else if j == 1 {
                assert(k_error_id().len() != k_minor_version().len());
            } else if j == 2 {
                assert(k_port_number().len() != k_minor_version().len());
            } else if j == 3 {
                assert(k_major_version()[1] != k_minor_version()[1]);
            } else {
            }
        }
        lemma_slookup_at(m, k_minor_version(), 4);
        crate::json::lemma_num_u64_round_trip(self.minor_version as nat);
        assert(sget_u16(m, k_minor_version()) == Some(self.minor_version));
        assert(Self::sdecode(m) == Some(self));
    }

}

/// Response to a disconnect request.
#[derive(Debug, Clone, Copy, PartialEq, Eq, Structural)]
pub struct FrcDisconnectResponse {
    pub error_id: u32,
}

impl FrcDisconnectResponse {
    /// The wire pairs of this value, in declaration order.
    pub open spec fn jpairs(self) -> Seq<(Seq<u8>, JValM)> {
        seq![
            (k_error_id(), JValM::Num(jnum_of_nat(self.error_id as nat))),
        ]
    }

    pub open spec fn wf(self) -> bool {
        true
    }

    /// Reads this value out of an object's pairs, by key;
    /// unknown pairs are ignored, a missing or ill-typed field fails.
    pub open spec fn sdecode(m: Seq<(Seq<u8>, JValM)>) -> Option<FrcDisconnectResponse> {
        match sget_u32(m, k_error_id()) {
            Some(error_id) => 
            Some(FrcDisconnectResponse { error_id }),
            None => None,
        }
    }

    pub fn push_pairs(&self, out: &mut Vec<(Vec<u8>, JVal)>)
        ensures
            model_pairs(final(out)@, 0) == model_pairs(old(out)@, 0) + self.jpairs(),
    {
        push_field_u32(out, key_error_id(), self.error_id as u32);
        proof {
            assert(model_pairs(out@, 0) =~= model_pairs(old(out)@, 0) + self.jpairs());
        }
    }

    pub fn from_pairs(pairs: &Vec<(Vec<u8>, JVal)>) -> (r: Option<FrcDisconnectResponse>)
        ensures
            r == Self::sdecode(model_pairs(pairs@, 0)),
    {
        let error_id = match get_u32(pairs, key_error_id().as_slice()) {
            Some(v) => v,
            None => {
                return None;
            },
        };
        Some(FrcDisconnectResponse { error_id })
    }

    pub proof fn lemma_wf(self)
        ensures
            jpairs_wf(self.jpairs(), 0),
    {
        let m = self.jpairs();
        k_error_id_ok();
        crate::json::lemma_num_u64_round_trip(self.error_id as nat);
        assert(jval_wf(JValM::Num(jnum_of_nat(self.error_id as nat))));
        assert(jpairs_wf(m, 1));
        assert(jpairs_wf(m, 0));
    }

    /// Reading back the pairs this value prints yields it again,
    /// whatever single pair (the discriminant) stands in front.
    pub proof fn lemma_round_trip(self, front: (Seq<u8>, JValM))
        requires
            front.0 == k_tag_communication(),
        ensures
            Self::sdecode(seq![front] + self.jpairs()) == Some(self),
    {
        let m = seq![front] + self.jpairs();
        // field `error_id`
        assert(m[1].0 == k_error_id());
        assert forall|j: int| 0 <= j < 1 implies m[j].0 != k_error_id() by {
            if j == 0 {
                assert(k_tag_communication().len() != k_error_id().len());
            } else {
            }
        }
        lemma_slookup_at(m, k_error_id(), 1);
        crate::json::lemma_num_u64_round_trip(self.error_id as nat);
        assert(sget_u32(m, k_error_id()) == Some(self.error_id));
        assert(Self::sdecode(m) == Some(self));
    }

}

/// A system-fault notice from the controller.
#[derive(Debug, Clone, Copy, PartialEq, Eq, Structural)]
pub struct FrcSystemFault {
    pub sequence_id: u32,
}

impl FrcSystemFault {
    /// The wire pairs of this value, in declaration order.
    pub open spec fn jpairs(self) -> Seq<(Seq<u8>, JValM)> {
        seq![
            (k_sequence_id(), JValM::Num(jnum_of_nat(self.sequence_id as nat))),
        ]
    }

    pub open spec fn wf(self) -> bool {
        true
    }

    /// Reads this value out of an object's pairs, by key;
    /// unknown pairs are ignored, a missing or ill-typed field fails.
    pub open spec fn sdecode(m: Seq<(Seq<u8>, JValM)>) -> Option<FrcSystemFault> {
        match sget_u32(m, k_sequence_id()) {
            Some(sequence_id) => 
            Some(FrcSystemFault { sequence_id }),
            None => None,
        }
    }

    pub fn push_pairs(&self, out: &mut Vec<(Vec<u8>, JVal)>)
        ensures
            model_pairs(final(out)@, 0) == model_pairs(old(out)@, 0) + self.jpairs(),
    {
        push_field_u32(out, key_sequence_id(), self.sequence_id as u32);
        proof {
            assert(model_pairs(out@, 0) =~= model_pairs(old(out)@, 0) + self.jpairs());
        }
    }

    pub fn from_pairs(pairs: &Vec<(Vec<u8>, JVal)>) -> (r: Option<FrcSystemFault>)
        ensures
            r == Self::sdecode(model_pairs(pairs@, 0)),
    {
        let sequence_id = match get_u32(pairs, key_sequence_id().as_slice()) {
            Some(v) => v,
            None => {
                return None;
            },
        };
        Some(FrcSystemFault { sequence_id })
    }

    pub proof fn lemma_wf(self)
        ensures
            jpairs_wf(self.jpairs(), 0),
    {
        let m = self.jpairs();
        k_sequence_id_ok();
        crate::json::lemma_num_u64_round_trip(self.sequence_id as nat);
        assert(jval_wf(JValM::Num(jnum_of_nat(self.sequence_id as nat))));
        assert(jpairs_wf(m, 1));
        assert(jpairs_wf(m, 0));
    }

    /// Reading back the pairs this value prints yields it again,
    /// whatever single pair (the discriminant) stands in front.
    pub proof fn lemma_round_trip(self, front: (Seq<u8>, JValM))
        requires
            front.0 == k_tag_communication(),
        ensures
            Self::sdecode(seq![front] + self.jpairs()) == Some(self),
    {
        let m = seq![front] + self.jpairs();
        // field `sequence_id`
        assert(m[1].0 == k_sequence_id());
        assert forall|j: int| 0 <= j < 1 implies m[j].0 != k_sequence_id() by {
            if j == 0 {
                assert(k_tag_communication().len() != k_sequence_id().len());
            } else {
            }
        }
        lemma_slookup_at(m, k_sequence_id(), 1);
        crate::json::lemma_num_u64_round_trip(self.sequence_id as nat);
        assert(sget_u32(m, k_sequence_id()) == Some(self.sequence_id));
        assert(Self::sdecode(m) == Some(self));
    }

}

/// Session-lifecycle requests; they carry no sequence identifier.
#[derive(Debug, Clone, PartialEq, Eq)]
pub enum Communication {
    FrcConnect,
    FrcDisconnect,
    FrcTerminate,
    FrcSystemFault,
}

impl Communication {
    /// The wire spelling of this packet's discriminant value.
    pub open spec fn tag_name(self) -> Seq<u8> {
        match self {
            Communication::FrcConnect => k_t_connect(),
            Communication::FrcDisconnect => k_t_disconnect(),
            Communication::FrcTerminate => k_t_terminate(),
            Communication::FrcSystemFault => k_t_system_fault(),
        }
    }

    /// The payload's wire pairs; empty for bare discriminants.
    pub open spec fn payload_pairs(self) -> Seq<(Seq<u8>, JValM)> {
        match self {
            Communication::FrcConnect => Seq::empty(),
            Communication::FrcDisconnect => Seq::empty(),
            Communication::FrcTerminate => Seq::empty(),
            Communication::FrcSystemFault => Seq::empty(),
        }
    }

    pub open spec fn wf(self) -> bool {
        match self {
            Communication::FrcConnect => true,
            Communication::FrcDisconnect => true,
            Communication::FrcTerminate => true,
            Communication::FrcSystemFault => true,
        }
    }

    /// The discriminant pair followed by the payload's pairs.
    pub open spec fn jpairs_full(self) -> Seq<(Seq<u8>, JValM)> {
        seq![(k_tag_communication(), JValM::Str(self.tag_name()))] + self.payload_pairs()
    }

    pub open spec fn jval(self) -> JValM {
        JValM::Obj(self.jpairs_full())
    }

    /// The exact JSON text of this packet, without the frame terminator.
    pub open spec fn spec_wire(self) -> Seq<u8> {
        print_jval(self.jval())
    }

    /// Packet equality; no byte-string fields, so plain equality.
    pub open spec fn pkt_eq(a: Communication, b: Communication) -> bool {
        a == b
    }

    /// Discriminant values this family recognizes.
    pub open spec fn known_tag(t: Seq<u8>) -> bool {
        ||| t == k_t_connect()
        ||| t == k_t_disconnect()
        ||| t == k_t_terminate()
        ||| t == k_t_system_fault()
    }

    pub proof fn lemma_wf(self)
        requires
            self.wf(),
        ensures
            jval_wf(self.jval()),
    {
        k_tag_communication_ok();
        match self {
            Communication::FrcConnect => {
                k_t_connect_ok();
                let m = self.jpairs_full();
                assert(self.payload_pairs() =~= Seq::<(Seq<u8>, JValM)>::empty());
                assert(m =~= seq![(k_tag_communication(), JValM::Str(k_t_connect()))]);
                assert(jval_wf(JValM::Str(k_t_connect())));
                assert(jpairs_wf(m, 1));
                assert(jpairs_wf(m, 0));
            },
            Communication::FrcDisconnect => {
                k_t_disconnect_ok();
                let m = self.jpairs_full();
                assert(self.payload_pairs() =~= Seq::<(Seq<u8>, JValM)>::empty());
                assert(m =~= seq![(k_tag_communication(), JValM::Str(k_t_disconnect()))]);
                assert(jval_wf(JValM::Str(k_t_disconnect())));
                assert(jpairs_wf(m, 1));
                assert(jpairs_wf(m, 0));
            },
            Communication::FrcTerminate => {
                k_t_terminate_ok();
                let m = self.jpairs_full();
                assert(self.payload_pairs() =~= Seq::<(Seq<u8>, JValM)>::empty());
                assert(m =~= seq![(k_tag_communication(), JValM::Str(k_t_terminate()))]);
                assert(jval_wf(JValM::Str(k_t_terminate())));
                assert(jpairs_wf(m, 1));
                assert(jpairs_wf(m, 0));
            },
            Communication::FrcSystemFault => {
                k_t_system_fault_ok();
                let m = self.jpairs_full();
                assert(self.payload_pairs() =~= Seq::<(Seq<u8>, JValM)>::empty());
                assert(m =~= seq![(k_tag_communication(), JValM::Str(k_t_system_fault()))]);
                assert(jval_wf(JValM::Str(k_t_system_fault())));
                assert(jpairs_wf(m, 1));
                assert(jpairs_wf(m, 0));
            },
        }
    }

    /// What the printed form of a packet parses to, and the
    /// discriminant its pairs carry.
    pub proof fn lemma_wire_facts(p: Communication, s: Seq<u8>)
        requires
            p.wf(),
            s == p.spec_wire(),
        ensures
            parse_jval(s, 0, s.len() as nat) == Some((p.jval(), s.len() as int)),
            sget_str(p.jpairs_full(), k_tag_communication()) == Some(p.tag_name()),
    {
        p.lemma_wf();
        lemma_jval_size_le_print(p.jval());
        assert(s.subrange(0, s.len() as int) =~= s);
        lemma_parse_print_jval(p.jval(), s, 0, s.len() as nat);
        let m = p.jpairs_full();
        assert(m[0] == (k_tag_communication(), JValM::Str(p.tag_name())));
        lemma_slookup_at(m, k_tag_communication(), 0);
    }

    /// No two discriminant spellings of this family coincide.
    pub proof fn lemma_tags_distinct()
        ensures
            k_t_connect() != k_t_disconnect(),
            k_t_connect() != k_t_terminate(),
            k_t_connect() != k_t_system_fault(),
            k_t_disconnect() != k_t_terminate(),
            k_t_disconnect() != k_t_system_fault(),
            k_t_terminate() != k_t_system_fault(),
    {
        assert(k_t_connect().len() != k_t_disconnect().len());
        assert(k_t_connect().len() != k_t_terminate().len());
        assert(k_t_connect().len() != k_t_system_fault().len());
        assert(k_t_disconnect().len() != k_t_terminate().len());
        assert(k_t_disconnect().len() != k_t_system_fault().len());
        assert(k_t_terminate().len() != k_t_system_fault().len());
    }

    /// The wire bytes of this packet: its JSON text followed by the
    /// carriage-return line-feed frame terminator.
    pub fn encode(&self) -> (r: Vec<u8>)
        requires
            self.wf(),
        ensures
            r@ == self.spec_wire() + seq![13u8, 10u8],
    {
        let mut pairs: Vec<(Vec<u8>, JVal)> = Vec::new();
        match self {
            Communication::FrcConnect => {
                push_field_str(&mut pairs, key_tag_communication(), key_t_connect().as_slice());
                proof {
                    assert(model_pairs(pairs@, 0) =~= self.jpairs_full());
                }
            },
            Communication::FrcDisconnect => {
                push_field_str(&mut pairs, key_tag_communication(), key_t_disconnect().as_slice());
                proof {
                    assert(model_pairs(pairs@, 0) =~= self.jpairs_full());
                }
            },
            Communication::FrcTerminate => {
                push_field_str(&mut pairs, key_tag_communication(), key_t_terminate().as_slice());
                proof {
                    assert(model_pairs(pairs@, 0) =~= self.jpairs_full());
                }
            },
            Communication::FrcSystemFault => {
                push_field_str(&mut pairs, key_tag_communication(), key_t_system_fault().as_slice());
                proof {
                    assert(model_pairs(pairs@, 0) =~= self.jpairs_full());
                }
            },
        }
        let v = JVal::Obj(pairs);
        let mut out: Vec<u8> = Vec::new();
        e_print_jval(&v, &mut out);
        out.push(13);
        out.push(10);
        proof {
            assert(out@ =~= self.spec_wire() + seq![13u8, 10u8]);
        }
        out
    }

    /// Decodes one frame (without its terminator).
    ///
    /// Decoding what `encode` produced yields the packet back. More
    /// generally, any frame that parses as one whole object with a
    /// known discriminant decodes by field name alone: unknown extra
    /// pairs and any pair order are accepted. An unknown discriminant
    /// is reported as such; bytes that are no wire object at all, an
    /// object without a discriminant, and missing or ill-typed fields
    /// are reported as serialization failures. Never a panic.
    #[verifier::rlimit(100)]
    pub fn decode(frame: &[u8]) -> (r: Result<Communication, FrcError>)
        ensures
            (forall|p: Communication| #![auto] p.wf() && frame@ == p.spec_wire() ==> (r matches Ok(q) && Communication::pkt_eq(q, p))),
            (wire_obj(frame@) is None ==> (r matches Err(FrcError::Serialization(_)))),
            ((match wire_obj(frame@) {
                Some(m) => sget_str(m, k_tag_communication()) is None ==> (r matches Err(
                    FrcError::Serialization(_),
                )),
                None => true,
            })),
            ((match wire_obj(frame@) {
                Some(m) => (match sget_str(m, k_tag_communication()) {
                    Some(t) => !Communication::known_tag(t) ==> r == Err::<Self, FrcError>(
                        FrcError::UnrecognizedPacket,
                    ),
                    None => true,
                }),
                None => true,
            })),
            ((r matches Ok(q) ==> (wire_obj(frame@) matches Some(m) && sget_str(m, k_tag_communication())
                == Some(q.tag_name())))),
            ((match wire_obj(frame@) {
                Some(m) => sget_str(m, k_tag_communication()) == Some(k_t_connect()) ==> r == Ok::<
                    Self,
                    FrcError,
                >(Communication::FrcConnect),
                None => true,
            })),
            ((match wire_obj(frame@) {
                Some(m) => sget_str(m, k_tag_communication()) == Some(k_t_disconnect()) ==> r == Ok::<
                    Self,
                    FrcError,
                >(Communication::FrcDisconnect),
                None => true,
            })),
            ((match wire_obj(frame@) {
                Some(m) => sget_str(m, k_tag_communication()) == Some(k_t_terminate()) ==> r == Ok::<
                    Self,
                    FrcError,
                >(Communication::FrcTerminate),
                None => true,
            })),
            ((match wire_obj(frame@) {
                Some(m) => sget_str(m, k_tag_communication()) == Some(k_t_system_fault()) ==> r == Ok::<
                    Self,
                    FrcError,
                >(Communication::FrcSystemFault),
                None => true,
            })),
    {
        let parsed = e_parse_jval(frame, 0, frame.len());
        let (jv, end) = match parsed {
            Some(vj) => vj,
            None => {
                proof {
                    assert forall|p: Communication| p.wf() && frame@ == p.spec_wire() implies false by {
                        Communication::lemma_wire_facts(p, frame@);
                    }
                }
                return Err(FrcError::Serialization("frame did not parse as a wire object".to_owned()));
            },
        };
        if end != frame.len() {
            proof {
                assert forall|p: Communication| p.wf() && frame@ == p.spec_wire() implies false by {
                    Communication::lemma_wire_facts(p, frame@);
                }
            }
            return Err(FrcError::Serialization("frame holds trailing bytes".to_owned()));
        }
        let ghost gv = jv.model();
        match jv {
            JVal::Obj(pairs) => {
                let tag = match get_str(&pairs, key_tag_communication().as_slice()) {
                    Some(t) => t,
                    None => {
                        proof {
                            assert forall|p: Communication| p.wf() && frame@ == p.spec_wire() implies false by {
                                Communication::lemma_wire_facts(p, frame@);
                            }
                        }
                        return Err(FrcError::Serialization("frame names no discriminant".to_owned()));
                    },
                };
                let res: Result<Communication, FrcError> = 
                if bytes_eq(tag.as_slice(), key_t_connect().as_slice()) {
                    Ok(Communication::FrcConnect)
                } else if bytes_eq(tag.as_slice(), key_t_disconnect().as_slice()) {
                    Ok(Communication::FrcDisconnect)
                } else if bytes_eq(tag.as_slice(), key_t_terminate().as_slice()) {
                    Ok(Communication::FrcTerminate)
                } else if bytes_eq(tag.as_slice(), key_t_system_fault().as_slice()) {
                    Ok(Communication::FrcSystemFault)
                } else {
                    Err(FrcError::UnrecognizedPacket)
                };
                proof {
                    Communication::lemma_tags_distinct();
                    assert(wire_obj(frame@) == Some(model_pairs(pairs@, 0)));
                    assert forall|p: Communication| p.wf() && frame@ == p.spec_wire() implies (res matches Ok(q) && Communication::pkt_eq(q, p)) by {
                        Communication::lemma_wire_facts(p, frame@);
                        assert(gv == p.jval());
                        assert(model_pairs(pairs@, 0) == p.jpairs_full());
                        assert(tag@ == p.tag_name());
                        match p {
                            Communication::FrcConnect => {
                            },
                            Communication::FrcDisconnect => {
                            },
                            Communication::FrcTerminate => {
                            },
                            Communication::FrcSystemFault => {
                            },
                        }
                    }
                }
                res
            },
            _ => {
                proof {
                    assert forall|p: Communication| p.wf() && frame@ == p.spec_wire() implies false by {
                        Communication::lemma_wire_facts(p, frame@);
                    }
                }
                Err(FrcError::Serialization("frame is not a wire object".to_owned()))
            },
        }
    }
}

/// Responses to session-lifecycle requests.
#[derive(Debug, Clone, PartialEq, Eq)]
pub enum CommunicationResponse {
    FrcConnect(FrcConnectResponse),
    FrcDisconnect(FrcDisconnectResponse),
    FrcTerminate,
    FrcSystemFault,
}

impl CommunicationResponse {
    /// The wire spelling of this packet's discriminant value.
    pub open spec fn tag_name(self) -> Seq<u8> {
        match self {
            CommunicationResponse::FrcConnect(_) => k_t_connect(),
            CommunicationResponse::FrcDisconnect(_) => k_t_disconnect(),
            CommunicationResponse::FrcTerminate => k_t_terminate(),
            CommunicationResponse::FrcSystemFault => k_t_system_fault(),
        }
    }

    /// The payload's wire pairs; empty for bare discriminants.
    pub open spec fn payload_pairs(self) -> Seq<(Seq<u8>, JValM)> {
        match self {
            CommunicationResponse::FrcConnect(p) => p.jpairs(),
            CommunicationResponse::FrcDisconnect(p) => p.jpairs(),
            CommunicationResponse::FrcTerminate => Seq::empty(),
            CommunicationResponse::FrcSystemFault => Seq::empty(),
        }
    }

    pub open spec fn wf(self) -> bool {
        match self {
            CommunicationResponse::FrcConnect(p) => p.wf(),
            CommunicationResponse::FrcDisconnect(p) => p.wf(),
            CommunicationResponse::FrcTerminate => true,
            CommunicationResponse::FrcSystemFault => true,
        }
    }

    /// The discriminant pair followed by the payload's pairs.
    pub open spec fn jpairs_full(self) -> Seq<(Seq<u8>, JValM)> {
        seq![(k_tag_communication(), JValM::Str(self.tag_name()))] + self.payload_pairs()
    }

    pub open spec fn jval(self) -> JValM {
        JValM::Obj(self.jpairs_full())
    }

    /// The exact JSON text of this packet, without the frame terminator.
    pub open spec fn spec_wire(self) -> Seq<u8> {
        print_jval(self.jval())
    }

    /// Packet equality; no byte-string fields, so plain equality.
    pub open spec fn pkt_eq(a: CommunicationResponse, b: CommunicationResponse) -> bool {
        a == b
    }

    /// Discriminant values this family recognizes.
    pub open spec fn known_tag(t: Seq<u8>) -> bool {
        ||| t == k_t_connect()
        ||| t == k_t_disconnect()
        ||| t == k_t_terminate()
        ||| t == k_t_system_fault()
    }

    pub proof fn lemma_wf(self)
        requires
            self.wf(),
        ensures
            jval_wf(self.jval()),
    {
        k_tag_communication_ok();
        match self {
            CommunicationResponse::FrcConnect(p) => {
                k_t_connect_ok();
                p.lemma_wf();
                assert(jval_wf(JValM::Str(k_t_connect())));
                lemma_jpairs_wf_cons((k_tag_communication(), JValM::Str(k_t_connect())), p.jpairs());
            },
            CommunicationResponse::FrcDisconnect(p) => {
                k_t_disconnect_ok();
                p.lemma_wf();
                assert(jval_wf(JValM::Str(k_t_disconnect())));
                lemma_jpairs_wf_cons((k_tag_communication(), JValM::Str(k_t_disconnect())), p.jpairs());
            },
            CommunicationResponse::FrcTerminate => {
                k_t_terminate_ok();
                let m = self.jpairs_full();
                assert(self.payload_pairs() =~= Seq::<(Seq<u8>, JValM)>::empty());
                assert(m =~= seq![(k_tag_communication(), JValM::Str(k_t_terminate()))]);
                assert(jval_wf(JValM::Str(k_t_terminate())));
                assert(jpairs_wf(m, 1));
                assert(jpairs_wf(m, 0));
            },
            CommunicationResponse::FrcSystemFault => {
                k_t_system_fault_ok();
                let m = self.jpairs_full();
                assert(self.payload_pairs() =~= Seq::<(Seq<u8>, JValM)>::empty());
                assert(m =~= seq![(k_tag_communication(), JValM::Str(k_t_system_fault()))]);
                assert(jval_wf(JValM::Str(k_t_system_fault())));
                assert(jpairs_wf(m, 1));
                assert(jpairs_wf(m, 0));
            },
        }
    }

    /// What the printed form of a packet parses to, and the
    /// discriminant its pairs carry.
    pub proof fn lemma_wire_facts(p: CommunicationResponse, s: Seq<u8>)
        requires
            p.wf(),
            s == p.spec_wire(),
        ensures
            parse_jval(s, 0, s.len() as nat) == Some((p.jval(), s.len() as int)),
            sget_str(p.jpairs_full(), k_tag_communication()) == Some(p.tag_name()),
    {
        p.lemma_wf();
        lemma_jval_size_le_print(p.jval());
        assert(s.subrange(0, s.len() as int) =~= s);
        lemma_parse_print_jval(p.jval(), s, 0, s.len() as nat);
        let m = p.jpairs_full();
        assert(m[0] == (k_tag_communication(), JValM::Str(p.tag_name())));
        lemma_slookup_at(m, k_tag_communication(), 0);
    }

    /// No two discriminant spellings of this family coincide.
    pub proof fn lemma_tags_distinct()
        ensures
            k_t_connect() != k_t_disconnect(),
            k_t_connect() != k_t_terminate(),
            k_t_connect() != k_t_system_fault(),
            k_t_disconnect() != k_t_terminate(),
            k_t_disconnect() != k_t_system_fault(),
            k_t_terminate() != k_t_system_fault(),
    {
        assert(k_t_connect().len() != k_t_disconnect().len());
        assert(k_t_connect().len() != k_t_terminate().len());
        assert(k_t_connect().len() != k_t_system_fault().len());
        assert(k_t_disconnect().len() != k_t_terminate().len());
        assert(k_t_disconnect().len() != k_t_system_fault().len());
        assert(k_t_terminate().len() != k_t_system_fault().len());
    }

    /// The wire bytes of this packet: its JSON text followed by the
    /// carriage-return line-feed frame terminator.
    pub fn encode(&self) -> (r: Vec<u8>)
        requires
            self.wf(),
        ensures
            r@ == self.spec_wire() + seq![13u8, 10u8],
    {
        let mut pairs: Vec<(Vec<u8>, JVal)> = Vec::new();
        match self {
            CommunicationResponse::FrcConnect(p) => {
                push_field_str(&mut pairs, key_tag_communication(), key_t_connect().as_slice());
                p.push_pairs(&mut pairs);
                proof {
                    assert(model_pairs(pairs@, 0) =~= self.jpairs_full());
                }
            },
            CommunicationResponse::FrcDisconnect(p) => {
                push_field_str(&mut pairs, key_tag_communication(), key_t_disconnect().as_slice());
                p.push_pairs(&mut pairs);
                proof {
                    assert(model_pairs(pairs@, 0) =~= self.jpairs_full());
                }
            },
            CommunicationResponse::FrcTerminate => {
                push_field_str(&mut pairs, key_tag_communication(), key_t_terminate().as_slice());
                proof {
                    assert(model_pairs(pairs@, 0) =~= self.jpairs_full());
                }
            },
            CommunicationResponse::FrcSystemFault => {
                push_field_str(&mut pairs, key_tag_communication(), key_t_system_fault().as_slice());
                proof {
                    assert(model_pairs(pairs@, 0) =~= self.jpairs_full());
                }
            },
        }
        let v = JVal::Obj(pairs);
        let mut out: Vec<u8> = Vec::new();
        e_print_jval(&v, &mut out);
        out.push(13);
        out.push(10);
        proof {
            assert(out@ =~= self.spec_wire() + seq![13u8, 10u8]);
        }
        out
    }

    /// Decodes one frame (without its terminator).
    ///
    /// Decoding what `encode` produced yields the packet back. More
    /// generally, any frame that parses as one whole object with a
    /// known discriminant decodes by field name alone: unknown extra
    /// pairs and any pair order are accepted. An unknown discriminant
    /// is reported as such; bytes that are no wire object at all, an
    /// object without a discriminant, and missing or ill-typed fields
    /// are reported as serialization failures. Never a panic.
    #[verifier::rlimit(100)]
    pub fn decode(frame: &[u8]) -> (r: Result<CommunicationResponse, FrcError>)
        ensures
            (forall|p: CommunicationResponse| #![auto] p.wf() && frame@ == p.spec_wire() ==> (r matches Ok(q) && CommunicationResponse::pkt_eq(q, p))),
            (wire_obj(frame@) is None ==> (r matches Err(FrcError::Serialization(_)))),
            ((match wire_obj(frame@) {
                Some(m) => sget_str(m, k_tag_communication()) is None ==> (r matches Err(
                    FrcError::Serialization(_),
                )),
                None => true,
            })),
            ((match wire_obj(frame@) {
                Some(m) => (match sget_str(m, k_tag_communication()) {
                    Some(t) => !CommunicationResponse::known_tag(t) ==> r == Err::<Self, FrcError>(
                        FrcError::UnrecognizedPacket,
                    ),
                    None => true,
                }),
                None => true,
            })),
            ((r matches Ok(q) ==> (wire_obj(frame@) matches Some(m) && sget_str(m, k_tag_communication())
                == Some(q.tag_name())))),
            ((match wire_obj(frame@) {
                Some(m) => sget_str(m, k_tag_communication()) == Some(k_t_connect()) ==> (match
                    FrcConnectResponse::sdecode(m) {
                    Some(pl) => r == Ok::<Self, FrcError>(CommunicationResponse::FrcConnect(pl)),
                    None => (r matches Err(FrcError::Serialization(_))),
                }),
                None => true,
            })),
            ((match wire_obj(frame@) {
                Some(m) => sget_str(m, k_tag_communication()) == Some(k_t_disconnect()) ==> (match
                    FrcDisconnectResponse::sdecode(m) {
                    Some(pl) => r == Ok::<Self, FrcError>(CommunicationResponse::FrcDisconnect(pl)),
                    None => (r matches Err(FrcError::Serialization(_))),
                }),
                None => true,
            })),
            ((match wire_obj(frame@) {
                Some(m) => sget_str(m, k_tag_communication()) == Some(k_t_terminate()) ==> r == Ok::<
                    Self,
                    FrcError,
                >(CommunicationResponse::FrcTerminate),
                None => true,
            })),
            ((match wire_obj(frame@) {
                Some(m) => sget_str(m, k_tag_communication()) == Some(k_t_system_fault()) ==> r == Ok::<
                    Self,
                    FrcError,
                >(CommunicationResponse::FrcSystemFault),
                None => true,
            })),
    {
        let parsed = e_parse_jval(frame, 0, frame.len());
        let (jv, end) = match parsed {
            Some(vj) => vj,
            None => {
                proof {
                    assert forall|p: CommunicationResponse| p.wf() && frame@ == p.spec_wire() implies false by {
                        CommunicationResponse::lemma_wire_facts(p, frame@);
                    }
                }
                return Err(FrcError::Serialization("frame did not parse as a wire object".to_owned()));
            },
        };
        if end != frame.len() {
            proof {
                assert forall|p: CommunicationResponse| p.wf() && frame@ == p.spec_wire() implies false by {
                    CommunicationResponse::lemma_wire_facts(p, frame@);
                }
            }
            return Err(FrcError::Serialization("frame holds trailing bytes".to_owned()));
        }
        let ghost gv = jv.model();
        match jv {
            JVal::Obj(pairs) => {
                let tag = match get_str(&pairs, key_tag_communication().as_slice()) {
                    Some(t) => t,
                    None => {
                        proof {
                            assert forall|p: CommunicationResponse| p.wf() && frame@ == p.spec_wire() implies false by {
                                CommunicationResponse::lemma_wire_facts(p, frame@);
                            }
                        }
                        return Err(FrcError::Serialization("frame names no discriminant".to_owned()));
                    },
                };
                let res: Result<CommunicationResponse, FrcError> = 
                if bytes_eq(tag.as_slice(), key_t_connect().as_slice()) {
                    match FrcConnectResponse::from_pairs(&pairs) {
                        Some(pl) => Ok(CommunicationResponse::FrcConnect(pl)),
                        None => Err(FrcError::Serialization("FRC_Connect fields did not decode".to_owned())),
                    }
                } else if bytes_eq(tag.as_slice(), key_t_disconnect().as_slice()) {
                    match FrcDisconnectResponse::from_pairs(&pairs) {
                        Some(pl) => Ok(CommunicationResponse::FrcDisconnect(pl)),
                        None => Err(FrcError::Serialization("FRC_Disconnect fields did not decode".to_owned())),
                    }
                } else if bytes_eq(tag.as_slice(), key_t_terminate().as_slice()) {
                    Ok(CommunicationResponse::FrcTerminate)
                } else if bytes_eq(tag.as_slice(), key_t_system_fault().as_slice()) {
                    Ok(CommunicationResponse::FrcSystemFault)
                } else {
                    Err(FrcError::UnrecognizedPacket)
                };
                proof {
                    CommunicationResponse::lemma_tags_distinct();
                    assert(wire_obj(frame@) == Some(model_pairs(pairs@, 0)));
                    assert forall|p: CommunicationResponse| p.wf() && frame@ == p.spec_wire() implies (res matches Ok(q) && CommunicationResponse::pkt_eq(q, p)) by {
                        CommunicationResponse::lemma_wire_facts(p, frame@);
                        assert(gv == p.jval());
                        assert(model_pairs(pairs@, 0) == p.jpairs_full());
                        assert(tag@ == p.tag_name());
                        match p {
                            CommunicationResponse::FrcConnect(pl) => {
                                pl.lemma_round_trip((k_tag_communication(), JValM::Str(k_t_connect())));
                            },
                            CommunicationResponse::FrcDisconnect(pl) => {
                                pl.lemma_round_trip((k_tag_communication(), JValM::Str(k_t_disconnect())));
                            },
                            CommunicationResponse::FrcTerminate => {
                            },
                            CommunicationResponse::FrcSystemFault => {
                            },
                        }
                    }
                }
                res
            },
            _ => {
                proof {
                    assert forall|p: CommunicationResponse| p.wf() && frame@ == p.spec_wire() implies false by {
                        CommunicationResponse::lemma_wire_facts(p, frame@);
                    }
                }
                Err(FrcError::Serialization("frame is not a wire object".to_owned()))
            },
        }
    }
}

} // verus!
