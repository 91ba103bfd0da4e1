//! Onboarding of an ensign through its six phases.

use vstd::prelude::*;
use crate::text::{decimal, push_decimal_u8, string_views};

verus! {

/// What an ensign hands over once onboarded: who it is, how far it got,
/// where it is assigned and whether it is ready.
#[derive(Debug, Clone)]
pub struct EnsignBaton {
    pub ensign_id: String,
    pub phase: u8,
    pub room_assignments: Vec<String>,
    pub ready: bool,
}

/// An agent that is brought up phase by phase: identity (1), capabilities
/// (2), room scan (3), room assignment (4), health check (5), ready (6).
pub struct Ensign {
    pub id: String,
    pub phase: u8,
    pub room_assignments: Vec<String>,
    pub ready: bool,
    onboarding_log: Vec<String>,
}

/// The error for a phase that does not follow the current one.
pub open spec fn out_of_order_message(expected: nat, got: nat) -> Seq<char> {
    seq!['E', 'x', 'p', 'e', 'c', 't', 'e', 'd', ' ', 'p', 'h', 'a', 's', 'e', ' '] + decimal(
        expected,
    ) + seq![',', ' ', 'g', 'o', 't', ' '] + decimal(got)
}

/// The error for a phase number past the last phase.
pub open spec fn unknown_phase_message(phase: nat) -> Seq<char> {
    seq!['U', 'n', 'k', 'n', 'o', 'w', 'n', ' ', 'p', 'h', 'a', 's', 'e', ':', ' '] + decimal(phase)
}

/// The onboarding log line of a phase: `phase <n>: <payload>`.
pub open spec fn phase_log_line(phase: nat, payload: Seq<char>) -> Seq<char> {
    seq!['p', 'h', 'a', 's', 'e', ' '] + decimal(phase) + seq![':', ' '] + payload
}

/// Whether `run_phase` takes `phase` as the next step after `current`:
/// the one that follows it, or a restart at phase 1.
pub open spec fn phase_accepted(current: u8, phase: u8) -> bool {
    phase == current + 1 || phase == 1
}

/// The first payload of onboarding: the ensign's identity.
pub open spec fn identity_payload() -> Seq<char> {
    seq!['i', 'd', 'e', 'n', 't', 'i', 't', 'y', ':', 'e', 'n', 's', 'i', 'g', 'n']
}

/// The second payload of onboarding: its capabilities.
pub open spec fn caps_payload() -> Seq<char> {
    seq!['c', 'a', 'p', 's', ':', 'd', 'e', 'f', 'a', 'u', 'l', 't']
}

/// The third payload of onboarding: the room scan.
pub open spec fn scan_payload() -> Seq<char> {
    seq!['s', 'c', 'a', 'n', ':', 'r', 'o', 'o', 'm', 's']
}

/// The fifth payload of onboarding: the health check.
pub open spec fn health_payload() -> Seq<char> {
    seq!['h', 'e', 'a', 'l', 't', 'h', ':', 'o', 'k']
}

/// The sixth payload of onboarding: readiness.
pub open spec fn ready_payload() -> Seq<char> {
    seq!['r', 'e', 'a', 'd', 'y', ':', 't', 'r', 'u', 'e']
}

/// The room an onboarding assigns: the first one offered, else `default`.
pub open spec fn first_room(rooms: Seq<&str>) -> Seq<char> {
    if rooms.len() > 0 {
        rooms[0]@
    } else {
        seq!['d', 'e', 'f', 'a', 'u', 'l', 't']
    }
}

/// The log lines of a complete onboarding that assigns `room`.
pub open spec fn onboarding_lines(room: Seq<char>) -> Seq<Seq<char>> {
    seq![
        phase_log_line(1, identity_payload()),
        phase_log_line(2, caps_payload()),
        phase_log_line(3, scan_payload()),
        phase_log_line(4, room),
        phase_log_line(5, health_payload()),
        phase_log_line(6, ready_payload()),
    ]
}

/// An ensign as plain values.
pub struct EnsignView {
    pub id: Seq<char>,
    pub phase: u8,
    pub rooms: Seq<Seq<char>>,
    pub ready: bool,
    pub log: Seq<Seq<char>>,
}

impl View for Ensign {
    type V = EnsignView;

    closed spec fn view(&self) -> EnsignView {
        EnsignView {
            id: self.id@,
            phase: self.phase,
            rooms: string_views(self.room_assignments@),
            ready: self.ready,
            log: string_views(self.onboarding_log@),
        }
    }
}

/// The ensign after it has taken `phase` with `payload`: the phase becomes
/// current and is logged, phase 4 assigns the payload as a room, and phase 6
/// makes the ensign ready.
pub open spec fn after_phase(e: EnsignView, phase: u8, payload: Seq<char>) -> EnsignView {
    EnsignView {
        id: e.id,
        phase: phase,
        rooms: if phase == 4 {
            e.rooms.push(payload)
        } else {
            e.rooms
        },
        ready: phase == 6 || e.ready,
        log: e.log.push(phase_log_line(phase as nat, payload)),
    }
}

/// Running the six phases in order, from any phase, leaves the ensign at
/// phase 6 and ready, with the fourth payload assigned as its last room.
pub proof fn lemma_six_phases_make_ready(
    e: EnsignView,
    p1: Seq<char>,
    p2: Seq<char>,
    p3: Seq<char>,
    p4: Seq<char>,
    p5: Seq<char>,
    p6: Seq<char>,
)
    requires
        e.phase < 255,
    ensures
        ({
            let e1 = after_phase(e, 1, p1);
            let e2 = after_phase(e1, 2, p2);
            let e3 = after_phase(e2, 3, p3);
            let e4 = after_phase(e3, 4, p4);
            let e5 = after_phase(e4, 5, p5);
            let e6 = after_phase(e5, 6, p6);
            &&& phase_accepted(e.phase, 1)
            &&& phase_accepted(e1.phase, 2)
            &&& phase_accepted(e2.phase, 3)
            &&& phase_accepted(e3.phase, 4)
            &&& phase_accepted(e4.phase, 5)
            &&& phase_accepted(e5.phase, 6)
            &&& e6.phase == 6
            &&& e6.ready
            &&& e6.id == e.id
            &&& e6.rooms == e.rooms.push(p4)
        }),
{
}

/// Only phase 6 makes an ensign ready: any other phase leaves a not-ready
/// ensign not ready.
pub proof fn lemma_ready_only_at_phase_six(e: EnsignView, phase: u8, payload: Seq<char>)
    requires
        !e.ready,
        phase != 6,
    ensures
        !after_phase(e, phase, payload).ready,
{
}

/// `run_phase` takes exactly the phase after the current one, or a restart
/// at phase 1; every other phase is refused.
pub proof fn lemma_accepted_phases(current: u8, phase: u8)
    ensures
        phase_accepted(current, phase) <==> (phase == current + 1 || phase == 1),
        phase != current + 1 && phase != 1 ==> !phase_accepted(current, phase),
{
}

/// Onboarding assigns the first room offered, whatever the number of rooms
/// offered, and `default` when none is.
pub proof fn lemma_onboarding_room(rooms: Seq<&str>)
    ensures
        rooms.len() > 0 ==> first_room(rooms) == rooms[0]@,
        rooms.len() == 0 ==> first_room(rooms) == seq!['d', 'e', 'f', 'a', 'u', 'l', 't'],
{
}

impl Ensign {

    pub fn new(id: &str) -> (e: Self)
        ensures
            e@.id == id@,
            e@.phase == 0,
            e@.rooms == Seq::<Seq<char>>::empty(),
            !e@.ready,
            e@.log == Seq::<Seq<char>>::empty(),
    {
        let e = Ensign {
            id: id.to_owned(),
            phase: 0,
            room_assignments: Vec::new(),
            ready: false,
            onboarding_log: Vec::new(),
        };
        assert(e@.rooms =~= Seq::<Seq<char>>::empty());
        assert(e@.log =~= Seq::<Seq<char>>::empty());
        e
    }

    /// Runs one onboarding phase. A phase that neither follows the current
    /// one nor restarts at 1 is refused and changes nothing. An accepted
    /// phase becomes the current phase and is logged; phase 4 assigns the
    /// payload as a room, phase 6 makes the ensign ready, and a phase past 6
    /// is kept but reported as unknown.
    pub fn run_phase(&mut self, phase: u8, payload: &str) -> (r: Result<(), String>)
        requires
            old(self)@.phase < 255,
        ensures
            phase != old(self)@.phase + 1 && phase != 1 ==> r is Err && *final(self) == *old(self),
            phase == old(self)@.phase + 1 || phase == 1 ==> final(self)@.phase == phase,
            !phase_accepted(old(self)@.phase, phase) ==> {
                &&& *final(self) == *old(self)
                &&& r matches Err(msg) && msg@ == out_of_order_message(
                    (old(self)@.phase + 1) as nat,
                    phase as nat,
                )
            },
            phase_accepted(old(self)@.phase, phase) ==> {
                &&& final(self)@ == after_phase(old(self)@, phase, payload@)
                &&& if 1 <= phase <= 6 {
                    r is Ok
                } else {
                    r matches Err(msg) && msg@ == unknown_phase_message(phase as nat)
                }
            },
    {
        let expected = self.phase + 1;
        if phase != expected && phase != 1 {
            proof {
                reveal_strlit("Expected phase ");
                reveal_strlit(", got ");
            }
            let mut msg = "Expected phase ".to_owned();
            push_decimal_u8(&mut msg, expected);
            msg.append(", got ");
            push_decimal_u8(&mut msg, phase);
            assert(msg@ =~= out_of_order_message(expected as nat, phase as nat));
            return Err(msg);
        }
        self.phase = phase;
        proof {
            reveal_strlit("phase ");
            reveal_strlit(": ");
        }
        let mut line = "phase ".to_owned();
        push_decimal_u8(&mut line, phase);
        line.append(": ");
        line.append(payload);
        assert(line@ =~= phase_log_line(phase as nat, payload@));
        let ghost log_before = self.onboarding_log@;
        self.onboarding_log.push(line);
        assert(string_views(self.onboarding_log@) =~= string_views(log_before).push(
            phase_log_line(phase as nat, payload@),
        ));
        if phase == 4 {
            let ghost rooms_before = self.room_assignments@;
            self.room_assignments.push(payload.to_owned());
            assert(string_views(self.room_assignments@) =~= string_views(rooms_before).push(
                payload@,
            ));
            Ok(())
        } else if phase == 6 {
            self.ready = true;
            Ok(())
        } else if 1 <= phase && phase <= 5 {
            Ok(())
        } else {
            proof {
                reveal_strlit("Unknown phase: ");
            }
            let mut msg = "Unknown phase: ".to_owned();
            push_decimal_u8(&mut msg, phase);
            assert(msg@ =~= unknown_phase_message(phase as nat));
            Err(msg)
        }
    }

    /// Runs all six phases, assigning the first of `rooms` (or `default`
    /// when there is none), and returns the resulting baton.
    pub fn full_onboarding(&mut self, rooms: &[&str]) -> (baton: EnsignBaton)
        requires
            old(self)@.phase < 255,
        ensures
            final(self)@.id == old(self)@.id,
            final(self)@.phase == 6,
            final(self)@.ready,
            rooms@.len() > 0 ==> final(self)@.rooms == old(self)@.rooms.push(rooms@[0]@),
            rooms@.len() == 0 ==> final(self)@.rooms == old(self)@.rooms.push(
                seq!['d', 'e', 'f', 'a', 'u', 'l', 't'],
            ),
            final(self)@.rooms == old(self)@.rooms.push(first_room(rooms@)),
            final(self)@.log == old(self)@.log + onboarding_lines(first_room(rooms@)),
            baton.ensign_id@ == final(self)@.id,
            baton.phase == 6,
            string_views(baton.room_assignments@) == final(self)@.rooms,
            baton.ready,
    {
        proof {
            reveal_strlit("identity:ensign");
            reveal_strlit("caps:default");
            reveal_strlit("scan:rooms");
            reveal_strlit("default");
            reveal_strlit("health:ok");
            reveal_strlit("ready:true");
        }
        let room: &str = if rooms.len() > 0 {
            rooms[0]
        } else {
            "default"
        };
        assert(room@ == first_room(rooms@)) by {
            assert("default"@ =~= seq!['d', 'e', 'f', 'a', 'u', 'l', 't']);
        }
        assert("identity:ensign"@ =~= identity_payload());
        assert("caps:default"@ =~= caps_payload());
        assert("scan:rooms"@ =~= scan_payload());
        assert("health:ok"@ =~= health_payload());
        assert("ready:true"@ =~= ready_payload());
        let ghost log0 = self@.log;
        let ghost rooms0 = self@.rooms;
        let r1 = self.run_phase(1, "identity:ensign");
        let r2 = self.run_phase(2, "caps:default");
        let r3 = self.run_phase(3, "scan:rooms");
        let r4 = self.run_phase(4, room);
        let r5 = self.run_phase(5, "health:ok");
        let r6 = self.run_phase(6, "ready:true");
        assert(r1.is_ok() && r2.is_ok() && r3.is_ok() && r4.is_ok() && r5.is_ok() && r6.is_ok());
        assert(self@.log =~= log0 + onboarding_lines(room@));
        if rooms.len() > 0 {
            let wanted = rooms[0].to_owned();
            let mut present = false;
            let mut i: usize = 0;
            while i < self.room_assignments.len()
                invariant
                    0 <= i <= self.room_assignments.len(),
                    present <==> exists|k: int|
                        0 <= k < i && #[trigger] self.room_assignments@[k]@ == wanted@,
                decreases self.room_assignments.len() - i,
            {
                if self.room_assignments[i] == wanted {
                    present = true;
                }
                i = i + 1;
            }
            proof {
                let last = self@.rooms.len() - 1;
                assert(self@.rooms[last] == room@);
                assert(self.room_assignments@[last]@ == wanted@);
            }
            if !present {
                self.room_assignments.push(wanted);
            }
        }
        let baton = EnsignBaton {
            ensign_id: self.id.clone(),
            phase: self.phase,
            room_assignments: self.room_assignments.clone(),
            ready: self.ready,
        };
        assert(string_views(baton.room_assignments@) =~= self@.rooms);
        baton
    }

    /// The ensign's current state, as a baton.
    pub fn baton(&self) -> (baton: EnsignBaton)
        ensures
            baton.ensign_id@ == self@.id,
            baton.phase == self@.phase,
            string_views(baton.room_assignments@) == self@.rooms,
            baton.ready == self@.ready,
    {
        let baton = EnsignBaton {
            ensign_id: self.id.clone(),
            phase: self.phase,
            room_assignments: self.room_assignments.clone(),
            ready: self.ready,
        };
        assert(string_views(baton.room_assignments@) =~= self@.rooms);
        baton
    }
}

} // verus!
