//! The command recorder: owner-scoped accumulation of plot intents and a
//! one-shot take-and-clear drain.

use vstd::prelude::*;

use crate::command::{views_of, CmdView, PlotCommand};

verus! {

/// An owner-scoped command log.
///
/// Each independent execution context owns one `Recorder`; two owners never
/// see each other's commands, because each `Recorder` is a distinct value and
/// every operation touches only the one it is called on.
///
/// The view of a `Recorder` is the sequence of commands currently pending
/// (appended and not yet drained), in append order. The ghost `drained`
/// history records every command handed out by past drains, in order, so the
/// contracts can state that nothing is ever duplicated or lost: at all times
/// `drained() + self@` is exactly the sequence of commands ever appended.
pub struct Recorder {
    log: Vec<PlotCommand>,
    history: Ghost<Seq<CmdView>>,
}

impl View for Recorder {
    type V = Seq<CmdView>;

    closed spec fn view(&self) -> Seq<CmdView> {
        views_of(self.log@)
    }
}

impl Recorder {
    /// The commands handed out by all past drains, concatenated in drain
    /// order.
    pub closed spec fn drained(&self) -> Seq<CmdView> {
        self.history@
    }

    /// Every command ever appended to this recorder, in append order: the
    /// ones already drained followed by the ones still pending. Appends
    /// extend it by one command; drains only move commands from pending to
    /// drained, so successive drains hand out disjoint slices of it and
    /// together return all of it.
    pub open spec fn ever_appended(&self) -> Seq<CmdView> {
        self.drained() + self@
    }

    /// A fresh recorder: nothing pending, nothing drained.
    pub fn new() -> (r: Recorder)
        ensures
            r@ == Seq::<CmdView>::empty(),
            r.drained() == Seq::<CmdView>::empty(),
    {
        Recorder { log: Vec::new(), history: Ghost(Seq::empty()) }
    }

    /// Append one command at the end of the pending log.
    ///
    /// Never fails; every appended command is visible to the next drain on
    /// this recorder and to no other recorder's drain.
    pub fn append(&mut self, cmd: PlotCommand)
        ensures
            final(self)@ == old(self)@.push(cmd@),
            final(self).drained() == old(self).drained(),
            final(self).ever_appended() == old(self).ever_appended().push(cmd@),
    {
        let ghost pre = self.log@;
        self.log.push(cmd);
        proof {
            assert(self@ =~= views_of(pre).push(self.log@.last()@));
            assert(self.ever_appended() =~= (self.drained() + views_of(pre)).push(
                self.log@.last()@,
            ));
        }
    }

    /// Return the pending commands in append order and reset the log.
    ///
    /// No command is returned by more than one drain, and none is lost: the
    /// result is exactly what was pending, the recorder is left empty, and
    /// the drained history grows by exactly the returned commands.
    pub fn drain(&mut self) -> (r: Vec<PlotCommand>)
        ensures
            views_of(r@) == old(self)@,
            final(self)@ == Seq::<CmdView>::empty(),
            final(self).drained() == old(self).drained() + old(self)@,
            final(self).ever_appended() == old(self).ever_appended(),
    {
        let mut r: Vec<PlotCommand> = Vec::new();
        r.append(&mut self.log);
        proof {
            assert(views_of(r@) =~= views_of(old(self).log@));
            self.history@ = self.history@ + views_of(r@);
            assert(self@ =~= Seq::<CmdView>::empty());
            assert(self.ever_appended() =~= old(self).ever_appended());
        }
        r
    }
}

} // verus!
