//! Which of the first-person viewmodel's animations plays: the draw and fire sequences play once,
//! the idle one whenever neither does.

use vstd::prelude::*;

use crate::game::SimEvent;

verus! {

/// The viewmodel's sequences.
#[derive(Clone, Copy, Debug, PartialEq, Eq, Structural)]
pub enum Clip {
    Idle,
    Fire,
    Draw,
}

impl Clip {
    /// The sequence's name in the model.
    pub fn name(self) -> (r: &'static str)
        ensures
            r@ == match self {
                Clip::Idle => "dh_idle"@,
                Clip::Fire => "dh_fire"@,
                Clip::Draw => "dh_draw"@,
            },
    {
        match self {
            Clip::Idle => "dh_idle",
            Clip::Fire => "dh_fire",
            Clip::Draw => "dh_draw",
        }
    }
}

/// What is done to the animation player.
#[derive(Clone, Copy, Debug, PartialEq, Eq, Structural)]
pub enum AnimCommand {
    Stop(Clip),
    /// Started from the beginning, once.
    Start(Clip),
    /// Played over and over.
    Loop(Clip),
}

/// The one-shot currently playing (draw or fire), if any.
#[derive(Clone, Copy, Debug, PartialEq, Eq, Structural)]
pub struct ViewmodelAnim {
    pub one_shot: Option<Clip>,
}

/// Whether player `me` fired among the first `n` events.
pub open spec fn fired_in(events: Seq<SimEvent>, me: u8, n: int) -> bool {
    exists|i: int| 0 <= i < n && #[trigger] events[i] == (SimEvent::RocketFired { shooter: me })
}

/// Whether player `me` fired.
pub fn fired(events: &Vec<SimEvent>, me: u8) -> (r: bool)
    ensures
        r == fired_in(events@, me, events@.len() as int),
{
    let mut i: usize = 0;
    while i < events.len()
        invariant
            i <= events.len(),
            !fired_in(events@, me, i as int),
        decreases events.len() - i,
    {
        if let SimEvent::RocketFired { shooter } = &events[i] {
            if *shooter == me {
                proof {
                    assert(events@[i as int] == (SimEvent::RocketFired { shooter: me }));
                }
                return true;
            }
        }
        i = i + 1;
    }
    false
}

impl ViewmodelAnim {
    /// The model comes up with the draw sequence.
    pub fn drawn() -> (r: (ViewmodelAnim, Vec<AnimCommand>))
        ensures
            r.0.one_shot == Some(Clip::Draw),
            r.1@ == seq![AnimCommand::Start(Clip::Draw)],
    {
        let commands = vec![AnimCommand::Start(Clip::Draw)];
        proof {
            assert(commands@ =~= seq![AnimCommand::Start(Clip::Draw)]);
        }
        (ViewmodelAnim { one_shot: Some(Clip::Draw) }, commands)
    }

    /// A shot cuts off whatever plays and starts the fire sequence.
    pub fn shoot(&mut self, fired: bool) -> (r: Vec<AnimCommand>)
        ensures
            final(self).one_shot == if fired {
                Some(Clip::Fire)
            } else {
                old(self).one_shot
            },
            r@ == if !fired {
                Seq::empty()
            } else {
                (match old(self).one_shot {
                    Some(c) => seq![AnimCommand::Stop(c)],
                    None => Seq::empty(),
                }) + seq![AnimCommand::Stop(Clip::Idle), AnimCommand::Start(Clip::Fire)]
            },
    {
        let mut out: Vec<AnimCommand> = Vec::new();
        if fired {
            if let Some(c) = self.one_shot {
                out.push(AnimCommand::Stop(c));
            }
            out.push(AnimCommand::Stop(Clip::Idle));
            out.push(AnimCommand::Start(Clip::Fire));
            self.one_shot = Some(Clip::Fire);
            proof {
                assert(out@ =~= (match old(self).one_shot {
                    Some(c) => seq![AnimCommand::Stop(c)],
                    None => Seq::empty(),
                }) + seq![AnimCommand::Stop(Clip::Idle), AnimCommand::Start(Clip::Fire)]);
            }
        }
        out
    }

    /// After the shot: a one-shot that is over gives way to the idle sequence, which also comes back
    /// where nothing plays. `over` is whether the one-shot has finished (or is not there), `idling`
    /// whether the idle sequence plays.
    pub fn settle(&mut self, over: bool, idling: bool) -> (r: Vec<AnimCommand>)
        ensures
            final(self).one_shot == if over {
                None
            } else {
                old(self).one_shot
            },
            r@ == match old(self).one_shot {
                Some(c) => if over {
                    seq![AnimCommand::Stop(c), AnimCommand::Loop(Clip::Idle)]
                } else {
                    Seq::empty()
                },
                None => if idling {
                    Seq::empty()
                } else {
                    seq![AnimCommand::Loop(Clip::Idle)]
                },
            },
    {
        let mut out: Vec<AnimCommand> = Vec::new();
        match self.one_shot {
            Some(c) => {
                if over {
                    out.push(AnimCommand::Stop(c));
                    self.one_shot = None;
                    out.push(AnimCommand::Loop(Clip::Idle));
                    proof {
                        assert(out@ =~= seq![
                            AnimCommand::Stop(c),
                            AnimCommand::Loop(Clip::Idle),
                        ]);
                    }
                }
            },
            None => {
                if !idling {
                    out.push(AnimCommand::Loop(Clip::Idle));
                    proof {
                        assert(out@ =~= seq![AnimCommand::Loop(Clip::Idle)]);
                    }
                }
            },
        }
        out
    }
}

} // verus!
