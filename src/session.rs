//! The per-role session: a linear state machine from key exchange to one
//! encrypted message in each direction. A driver performs each action it
//! returns (a socket write, an exact read, a console prompt or display) and
//! hands the outcome back as the next event.

use crate::exchange::{is_valid_private, lemma_key_agreement, DhParams, KeyPair};
use crate::keystream::{advance, seed_of, stream_from, xor_seq, Keystream};
use crate::modexp::mod_pow;
use crate::wire::{be_bytes_u64, frame_of, u32_of_be, u64_of_be, decode_u32, decode_u64, encode_frame, encode_u64};
use vstd::prelude::*;

verus! {

/// Keystream bytes drawn as a preview right after the secret is agreed,
/// on both sides, before any message is encrypted.
pub const PREVIEW_LEN: usize = 8;

/// Which side of the connection a session plays.
#[derive(Clone, Copy, Debug, PartialEq, Eq, Structural)]
pub enum Role {
    /// The listening side: sends its public value first, then its message.
    Responder,
    /// The connecting side: reads the peer's public value first, and
    /// receives before it replies.
    Initiator,
}

/// Where a session stands.
#[derive(Clone, Copy, Debug, PartialEq, Eq, Structural)]
pub enum Stage {
    Start,
    PublicOut,
    PublicIn,
    Composing,
    MessageOut,
    LengthIn,
    BodyIn,
    Showing,
    Done,
    Failed,
}

/// What the driver reports back.
#[derive(Debug)]
pub enum Event {
    /// The connection is up.
    Begin,
    /// The last `Send` was written in full.
    Sent,
    /// The bytes that the last `Receive` read.
    Received(Vec<u8>),
    /// The operator's line of outgoing text.
    Line(Vec<u8>),
    /// The last `Show` was displayed.
    Shown,
}

/// What the session asks the driver to do next.
#[derive(Debug)]
pub enum Action {
    /// Write these bytes to the peer.
    Send(Vec<u8>),
    /// Read exactly this many bytes from the peer.
    Receive(u32),
    /// Ask the operator for one line of text.
    Prompt,
    /// Display this decrypted text.
    Show(Vec<u8>),
    /// The session completed.
    Finish,
    /// The session broke off; nothing more will be asked.
    Abort,
}

/// One side of a chat session.
pub struct Session {
    pub role: Role,
    pub params: DhParams,
    pub keys: KeyPair,
    pub stage: Stage,
    /// The peer's public value, once received.
    pub peer_public: u64,
    /// The shared secret, once agreed.
    pub secret: u64,
    /// The keystream, threaded through the send and the receive alike.
    pub keystream: Keystream,
    /// The keystream bytes drawn as a preview when the secret was agreed.
    pub preview: Vec<u8>,
    /// The ciphertext length announced by the peer.
    pub expected: u32,
}

/// `a` asks to send exactly `bytes`.
pub open spec fn sends(a: Action, bytes: Seq<u8>) -> bool {
    a matches Action::Send(b) && b@ == bytes
}

/// `a` asks to read exactly `n` bytes.
pub open spec fn receives(a: Action, n: u32) -> bool {
    a matches Action::Receive(k) && k == n
}

/// `a` asks to display exactly `text`.
pub open spec fn shows(a: Action, text: Seq<u8>) -> bool {
    a matches Action::Show(b) && b@ == text
}

/// The parts of a session that never change.
pub open spec fn keeps_identity(s: Session, t: Session) -> bool {
    &&& t.role == s.role
    &&& t.params == s.params
    &&& t.keys == s.keys
}

/// The channel state (secret, keystream, announced length) is unchanged.
pub open spec fn keeps_channel(s: Session, t: Session) -> bool {
    &&& t.peer_public == s.peer_public
    &&& t.secret == s.secret
    &&& t.keystream.state == s.keystream.state
    &&& t.preview@ == s.preview@
    &&& t.expected == s.expected
}

/// The session broke off, keeping its channel state.
pub open spec fn fails(s: Session, t: Session, a: Action) -> bool {
    &&& t.stage == Stage::Failed
    &&& keeps_channel(s, t)
    &&& a is Abort
}

/// The channel state once the peer's public value `peer` is known.
pub open spec fn establishes(s: Session, t: Session, peer: u64) -> bool {
    &&& t.peer_public == peer
    &&& t.secret as int == mod_pow(peer as int, s.keys.private as nat, s.params.p as int)
    &&& t.preview@ == stream_from(seed_of(t.secret), PREVIEW_LEN as nat)
    &&& t.keystream.state == advance(seed_of(t.secret), PREVIEW_LEN as nat)
    &&& t.expected == s.expected
}

/// The one transition from `s` on event `e` to `t`, asking for `a`.
pub open spec fn step_spec(s: Session, e: Event, t: Session, a: Action) -> bool {
    &&& keeps_identity(s, t)
    &&& match s.stage {
        Stage::Start => match e {
            Event::Begin => keeps_channel(s, t) && match s.role {
                Role::Responder => t.stage == Stage::PublicOut && sends(a, be_bytes_u64(s.keys.public)),
                Role::Initiator => t.stage == Stage::PublicIn && receives(a, 8),
            },
            _ => fails(s, t, a),
        },
        Stage::PublicOut => match e {
            Event::Sent => keeps_channel(s, t) && match s.role {
                Role::Responder => t.stage == Stage::PublicIn && receives(a, 8),
                Role::Initiator => t.stage == Stage::LengthIn && receives(a, 4),
            },
            _ => fails(s, t, a),
        },
        Stage::PublicIn => match e {
            Event::Received(b) => if b@.len() == 8 {
                establishes(s, t, u64_of_be(b@)) && match s.role {
                    Role::Responder => t.stage == Stage::Composing && a is Prompt,
                    Role::Initiator => t.stage == Stage::PublicOut && sends(a, be_bytes_u64(s.keys.public)),
                }
            } else {
                fails(s, t, a)
            },
            _ => fails(s, t, a),
        },
        Stage::Composing => match e {
            Event::Line(m) => if m@.len() <= u32::MAX {
                &&& t.stage == Stage::MessageOut
                &&& sends(a, frame_of(xor_seq(m@, stream_from(s.keystream.state, m@.len()))))
                &&& t.keystream.state == advance(s.keystream.state, m@.len())
                &&& t.peer_public == s.peer_public && t.secret == s.secret
                &&& t.preview@ == s.preview@ && t.expected == s.expected
            } else {
                fails(s, t, a)
            },
            _ => fails(s, t, a),
        },
        Stage::MessageOut => match e {
            Event::Sent => keeps_channel(s, t) && match s.role {
                Role::Responder => t.stage == Stage::LengthIn && receives(a, 4),
                Role::Initiator => t.stage == Stage::Done && a is Finish,
            },
            _ => fails(s, t, a),
        },
        Stage::LengthIn => match e {
            Event::Received(b) => if b@.len() == 4 {
                &&& t.stage == Stage::BodyIn
                &&& t.expected == u32_of_be(b@)
                &&& receives(a, u32_of_be(b@))
                &&& t.peer_public == s.peer_public && t.secret == s.secret
                &&& t.keystream.state == s.keystream.state && t.preview@ == s.preview@
            } else {
                fails(s, t, a)
            },
            _ => fails(s, t, a),
        },
        Stage::BodyIn => match e {
            Event::Received(b) => if b@.len() == s.expected {
                &&& t.stage == Stage::Showing
                &&& shows(a, xor_seq(b@, stream_from(s.keystream.state, b@.len())))
                &&& t.keystream.state == advance(s.keystream.state, b@.len())
                &&& t.peer_public == s.peer_public && t.secret == s.secret
                &&& t.preview@ == s.preview@ && t.expected == s.expected
            } else {
                fails(s, t, a)
            },
            _ => fails(s, t, a),
        },
        Stage::Showing => match e {
            Event::Shown => keeps_channel(s, t) && match s.role {
                Role::Responder => t.stage == Stage::Done && a is Finish,
                Role::Initiator => t.stage == Stage::Composing && a is Prompt,
            },
            _ => fails(s, t, a),
        },
        Stage::Done | Stage::Failed => fails(s, t, a),
    }
}

/// The session's secret is the one derived from the peer public value it
/// holds.
pub open spec fn holds_secret_of_peer(s: Session) -> bool {
    s.secret as int == mod_pow(s.peer_public as int, s.keys.private as nat, s.params.p as int)
}

/// Two sessions that received each other's public values derive the same
/// secret, and so draw the same keystream, byte for byte, in lock-step.
pub proof fn lemma_peers_agree(s: Session, t: Session, n: nat)
    requires
        s.wf(),
        t.wf(),
        s.params == t.params,
        s.peer_public == t.keys.public,
        t.peer_public == s.keys.public,
        holds_secret_of_peer(s),
        holds_secret_of_peer(t),
    ensures
        s.secret == t.secret,
        stream_from(seed_of(s.secret), n) == stream_from(seed_of(t.secret), n),
{
    lemma_key_agreement(s.params, t.keys, s.keys);
}

impl Session {
    /// The session's parameters and key pair are consistent.
    pub open spec fn wf(&self) -> bool {
        &&& self.params.wf()
        &&& self.keys.wf(self.params)
    }

    /// A session about to start, with the given private scalar; `None`
    /// where the scalar is a multiple of `p`.
    pub fn new(role: Role, params: DhParams, private: u64) -> (r: Option<Session>)
        requires
            params.wf(),
        ensures
            r.is_some() == is_valid_private(params, private),
            r matches Some(s) ==> {
                &&& s.wf()
                &&& s.role == role
                &&& s.params == params
                &&& s.keys.private == private
                &&& s.stage == Stage::Start
            },
    {
        match KeyPair::from_private(params, private) {
            Some(keys) => Some(Session {
                role,
                params,
                keys,
                stage: Stage::Start,
                peer_public: 0,
                secret: 0,
                keystream: Keystream { state: 0 },
                preview: Vec::new(),
                expected: 0,
            }),
            None => None,
        }
    }

    fn fail(&mut self) -> (a: Action)
        ensures
            keeps_identity(*old(self), *final(self)),
            fails(*old(self), *final(self), a),
    {
        self.stage = Stage::Failed;
        Action::Abort
    }

    fn establish(&mut self, peer: u64)
        requires
            old(self).wf(),
        ensures
            keeps_identity(*old(self), *final(self)),
            final(self).stage == old(self).stage,
            establishes(*old(self), *final(self), peer),
    {
        let secret = crate::exchange::shared_secret(self.params, peer, self.keys.private);
        let mut ks = Keystream::from_secret(secret);
        let preview = ks.preview_bytes(PREVIEW_LEN);
        self.peer_public = peer;
        self.secret = secret;
        self.keystream = ks;
        self.preview = preview;
    }

    /// Advances the session by one event and says what to do next.
    pub fn step(&mut self, e: Event) -> (a: Action)
        requires
            old(self).wf(),
        ensures
            final(self).wf(),
            step_spec(*old(self), e, *final(self), a),
    {
        let ghost s0 = *self;
        match self.stage {
            Stage::Start => match e {
                Event::Begin => match self.role {
                    Role::Responder => {
                        self.stage = Stage::PublicOut;
                        Action::Send(encode_u64(self.keys.public))
                    },
                    Role::Initiator => {
                        self.stage = Stage::PublicIn;
                        Action::Receive(8)
                    },
                },
                _ => self.fail(),
            },
            Stage::PublicOut => match e {
                Event::Sent => match self.role {
                    Role::Responder => {
                        self.stage = Stage::PublicIn;
                        Action::Receive(8)
                    },
                    Role::Initiator => {
                        self.stage = Stage::LengthIn;
                        Action::Receive(4)
                    },
                },
                _ => self.fail(),
            },
            Stage::PublicIn => match e {
                Event::Received(b) => match decode_u64(&b) {
                    Some(peer) => {
                        self.establish(peer);
                        match self.role {
                            Role::Responder => {
                                self.stage = Stage::Composing;
                                Action::Prompt
                            },
                            Role::Initiator => {
                                self.stage = Stage::PublicOut;
                                Action::Send(encode_u64(self.keys.public))
                            },
                        }
                    },
                    None => self.fail(),
                },
                _ => self.fail(),
            },
            Stage::Composing => match e {
                Event::Line(m) => {
                    if m.len() > 0xFFFF_FFFFusize {
                        self.fail()
                    } else {
                        let cipher = self.keystream.xor_bytes(&m);
                        match encode_frame(&cipher) {
                            Some(frame) => {
                                self.stage = Stage::MessageOut;
                                Action::Send(frame)
                            },
                            None => self.fail(),
                        }
                    }
                },
                _ => self.fail(),
            },
            Stage::MessageOut => match e {
                Event::Sent => match self.role {
                    Role::Responder => {
                        self.stage = Stage::LengthIn;
                        Action::Receive(4)
                    },
                    Role::Initiator => {
                        self.stage = Stage::Done;
                        Action::Finish
                    },
                },
                _ => self.fail(),
            },
            Stage::LengthIn => match e {
                Event::Received(b) => match decode_u32(&b) {
                    Some(n) => {
                        self.expected = n;
                        self.stage = Stage::BodyIn;
                        Action::Receive(n)
                    },
                    None => self.fail(),
                },
                _ => self.fail(),
            },
            Stage::BodyIn => match e {
                Event::Received(b) => {
                    if b.len() as u64 == self.expected as u64 {
                        let plain = self.keystream.xor_bytes(&b);
                        self.stage = Stage::Showing;
                        Action::Show(plain)
                    } else {
                        self.fail()
                    }
                },
                _ => self.fail(),
            },
            Stage::Showing => match e {
                Event::Shown => match self.role {
                    Role::Responder => {
                        self.stage = Stage::Done;
                        Action::Finish
                    },
                    Role::Initiator => {
                        self.stage = Stage::Composing;
                        Action::Prompt
                    },
                },
                _ => self.fail(),
            },
            _ => self.fail(),
        }
    }
}

} // verus!
