//! One sign-in demand per gesture.
//!
//! A reader with no viewer gets the host's sign-in ceremony instead of a
//! caret when they reach for the message box. A textarea takes focus by
//! more than one route (a pointer press, a programmatic focus, a drop, a
//! keystroke under a caret that was already there), and the demand must go
//! up exactly once per gesture whichever routes a gesture takes. Three
//! per-mount counters and no clock:
//!
//! * `gesture_seq`: how many pointer gestures the box has seen;
//! * `last_press_seq`: the `gesture_seq` of the most recent primary press;
//! * `demanded_in`: the `gesture_seq` when the outstanding demand was
//!   raised, `None` while none is outstanding. A demand is raised only while
//!   none is outstanding.
//!
//! Only a primary press that starts a gesture clears the latch, and only when
//! a completed press already stands behind the outstanding demand; so a tap
//! whose focus comes before its press, a double click, and the focus a
//! closing ceremony hands back each raise nothing more. The crate's own
//! deliberate gestures (a drop, arming a reply) re-arm the latch first.
//!
//! Every handler is inert while `gated` is false: a signed-in reader, or a
//! host with no sign-in ceremony to offer.
use vstd::prelude::*;

verus! {

/// The latch's per-mount state.
#[derive(Clone, Copy, PartialEq, Eq, Debug)]
pub struct GestureLatch {
    pub gesture_seq: u64,
    pub last_press_seq: Option<u64>,
    pub demanded_in: Option<u64>,
}

/// What a mouse press on the box does: refuse the caret, and raise the
/// demand.
#[derive(Clone, Copy, PartialEq, Eq, Debug)]
pub struct PressOutcome {
    pub prevent_default: bool,
    pub demand: bool,
}

/// What a focus on the box does: blur it first, then raise the demand.
#[derive(Clone, Copy, PartialEq, Eq, Debug)]
pub struct FocusOutcome {
    pub blur: bool,
    pub demand: bool,
}

/// What a drop onto the box does: refuse the insertion, and raise the demand.
#[derive(Clone, Copy, PartialEq, Eq, Debug)]
pub struct DropOutcome {
    pub prevent_default: bool,
    pub demand: bool,
}

impl GestureLatch {
    /// Every recorded sequence number is one the box has reached.
    pub open spec fn wf(&self) -> bool {
        &&& (self.last_press_seq matches Some(p) ==> p <= self.gesture_seq)
        &&& (self.demanded_in matches Some(d) ==> d <= self.gesture_seq)
    }

    /// Raise the demand unless one is outstanding; whether it was raised.
    pub open spec fn demand_once_spec(self) -> (GestureLatch, bool) {
        if self.demanded_in is Some {
            (self, false)
        } else {
            (GestureLatch { demanded_in: Some(self.gesture_seq), ..self }, true)
        }
    }

    /// A pointer gesture begins on the box.
    pub open spec fn pointer_down_spec(self, gated: bool) -> GestureLatch {
        if gated {
            GestureLatch { gesture_seq: (self.gesture_seq + 1) as u64, ..self }
        } else {
            self
        }
    }

    /// The outstanding demand has no completed press behind it yet.
    pub open spec fn unanswered(self) -> bool {
        match self.demanded_in {
            None => false,
            Some(raised) => match self.last_press_seq {
                None => true,
                Some(pressed) => pressed < raised,
            },
        }
    }

    /// A mouse press with `button` (0 is primary) and click count `detail`.
    pub open spec fn press_spec(self, gated: bool, button: i16, detail: i32) -> (GestureLatch, PressOutcome) {
        if !gated {
            (self, PressOutcome { prevent_default: false, demand: false })
        } else if button != 0 || detail > 1 {
            (self, PressOutcome { prevent_default: true, demand: false })
        } else {
            let g: u64 = if self.last_press_seq == Some(self.gesture_seq) {
                (self.gesture_seq + 1) as u64
            } else {
                self.gesture_seq
            };
            let kept = if self.unanswered() {
                self.demanded_in
            } else {
                None
            };
            let pressed = GestureLatch { gesture_seq: g, last_press_seq: Some(g), demanded_in: kept };
            let (after, demanded) = pressed.demand_once_spec();
            (after, PressOutcome { prevent_default: true, demand: demanded })
        }
    }

    /// The box takes focus.
    pub open spec fn focus_spec(self, gated: bool) -> (GestureLatch, FocusOutcome) {
        if !gated {
            (self, FocusOutcome { blur: false, demand: false })
        } else {
            let (after, demanded) = self.demand_once_spec();
            (after, FocusOutcome { blur: true, demand: demanded })
        }
    }

    /// Something is dropped onto the box: its own gesture, so it re-arms.
    pub open spec fn drop_spec(self, gated: bool) -> (GestureLatch, DropOutcome) {
        if !gated {
            (self, DropOutcome { prevent_default: false, demand: false })
        } else {
            let (after, demanded) = GestureLatch { demanded_in: None, ..self }.demand_once_spec();
            (after, DropOutcome { prevent_default: true, demand: demanded })
        }
    }

    /// A key goes down while a caret is in the box; `writes` says whether it
    /// would have changed or sent the draft.
    pub open spec fn key_spec(self, gated: bool, writes: bool) -> (GestureLatch, bool) {
        if gated && writes {
            self.demand_once_spec()
        } else {
            (self, false)
        }
    }

    /// A fresh latch for a new mount.
    pub fn new() -> (r: GestureLatch)
        ensures
            r.wf(),
            r.gesture_seq == 0,
            r.last_press_seq is None,
            r.demanded_in is None,
    {
        GestureLatch { gesture_seq: 0, last_press_seq: None, demanded_in: None }
    }

    fn demand_once(&mut self) -> (demanded: bool)
        ensures
            (*final(self), demanded) == old(self).demand_once_spec(),
    {
        if self.demanded_in.is_some() {
            return false;
        }
        self.demanded_in = Some(self.gesture_seq);
        true
    }

    /// The first event of any tap or click: counts the gesture.
    pub fn pointer_down(&mut self, gated: bool)
        requires
            old(self).gesture_seq < u64::MAX,
        ensures
            *final(self) == old(self).pointer_down_spec(gated),
            old(self).wf() ==> final(self).wf(),
    {
        if gated {
            self.gesture_seq = self.gesture_seq + 1;
        }
    }

    /// A mouse press: every button is refused a caret; a primary single press
    /// (a second or third press continues the gesture its first began) counts
    /// as a gesture of its own when no pointer-down came since the previous
    /// press, clears the latch unless the outstanding demand has no completed
    /// press behind it yet, records itself, and demands.
    pub fn press(&mut self, gated: bool, button: i16, detail: i32) -> (r: PressOutcome)
        requires
            old(self).gesture_seq < u64::MAX,
        ensures
            (*final(self), r) == old(self).press_spec(gated, button, detail),
            old(self).wf() ==> final(self).wf(),
    {
        if !gated {
            return PressOutcome { prevent_default: false, demand: false };
        }
        if button != 0 {
            return PressOutcome { prevent_default: true, demand: false };
        }
        if detail > 1 {
            return PressOutcome { prevent_default: true, demand: false };
        }
        let fresh = match self.last_press_seq {
            Some(p) => p == self.gesture_seq,
            None => false,
        };
        if fresh {
            self.gesture_seq = self.gesture_seq + 1;
        }
        let unanswered = match self.demanded_in {
            None => false,
            Some(raised) => match self.last_press_seq {
                None => true,
                Some(pressed) => pressed < raised,
            },
        };
        self.last_press_seq = Some(self.gesture_seq);
        if !unanswered {
            self.demanded_in = None;
        }
        let demanded = self.demand_once();
        PressOutcome { prevent_default: true, demand: demanded }
    }

    /// The box takes focus: blur it, and demand unless a demand is
    /// outstanding.
    pub fn focus(&mut self, gated: bool) -> (r: FocusOutcome)
        ensures
            (*final(self), r) == old(self).focus_spec(gated),
            old(self).wf() ==> final(self).wf(),
    {
        if !gated {
            return FocusOutcome { blur: false, demand: false };
        }
        let demanded = self.demand_once();
        FocusOutcome { blur: true, demand: demanded }
    }

    /// Something is dropped onto the box: refuse it, re-arm, and demand.
    pub fn dropped(&mut self, gated: bool) -> (r: DropOutcome)
        ensures
            (*final(self), r) == old(self).drop_spec(gated),
            old(self).wf() ==> final(self).wf(),
    {
        if !gated {
            return DropOutcome { prevent_default: false, demand: false };
        }
        self.rearm();
        let demanded = self.demand_once();
        DropOutcome { prevent_default: true, demand: demanded }
    }

    /// A deliberate gesture of the reader's own (arming a reply): the next
    /// route may demand again.
    pub fn rearm(&mut self)
        ensures
            *final(self) == (GestureLatch { demanded_in: None, ..*old(self) }),
            old(self).wf() ==> final(self).wf(),
    {
        self.demanded_in = None;
    }

    /// A key under a caret that was already in the box when the session
    /// dropped: demand, latched, if it would have written the draft.
    pub fn key(&mut self, gated: bool, writes: bool) -> (demand: bool)
        ensures
            (*final(self), demand) == old(self).key_spec(gated, writes),
            old(self).wf() ==> final(self).wf(),
    {
        if gated && writes {
            return self.demand_once();
        }
        false
    }
}

/// While the reader is signed in (or the host offers no ceremony), no route
/// does anything: the latch is untouched and nothing is demanded or refused.
pub proof fn law_ungated_is_inert(s: GestureLatch, button: i16, detail: i32, writes: bool)
    ensures
        s.pointer_down_spec(false) == s,
        s.press_spec(false, button, detail) == (s, PressOutcome { prevent_default: false, demand: false }),
        s.focus_spec(false) == (s, FocusOutcome { blur: false, demand: false }),
        s.drop_spec(false) == (s, DropOutcome { prevent_default: false, demand: false }),
        s.key_spec(false, writes) == (s, false),
{
}

/// A second or third press of a multi-click, or a press of another button,
/// continues the gesture: the caret is refused, and nothing else happens.
pub proof fn law_continuing_press_is_inert(s: GestureLatch, button: i16, detail: i32)
    requires
        button != 0 || detail > 1,
    ensures
        s.press_spec(true, button, detail) == (s, PressOutcome { prevent_default: true, demand: false }),
{
}

/// While a demand is outstanding, a focus (the one a closing ceremony hands
/// back, or a host focusing the box from its own code) raises nothing.
pub proof fn law_outstanding_demand_silences_focus(s: GestureLatch)
    requires
        s.demanded_in is Some,
    ensures
        s.focus_spec(true) == (s, FocusOutcome { blur: true, demand: false }),
{
}

/// A click, double click or triple click from a latch with nothing
/// outstanding raises exactly one demand, and the focus that follows the
/// ceremony none.
pub proof fn law_one_ceremony_per_click(s: GestureLatch)
    requires
        s.wf(),
        s.demanded_in is None,
        s.gesture_seq < u64::MAX - 1,
    ensures
        ({
            let s1 = s.pointer_down_spec(true);
            let (s2, p1) = s1.press_spec(true, 0, 1);
            let (s3, p2) = s2.press_spec(true, 0, 2);
            let (s4, p3) = s3.press_spec(true, 0, 3);
            let (_s5, f) = s4.focus_spec(true);
            p1.demand && !p2.demand && !p3.demand && !f.demand
        }),
{
}

/// A tap or pen press whose focus arrives before its press raises exactly
/// one demand: the focus demands, and the press finds no completed press
/// behind that demand and stays quiet.
pub proof fn law_one_ceremony_per_tap(s: GestureLatch)
    requires
        s.wf(),
        s.demanded_in is None,
        s.gesture_seq < u64::MAX - 1,
    ensures
        ({
            let s1 = s.pointer_down_spec(true);
            let (s2, f) = s1.focus_spec(true);
            let (_s3, p) = s2.press_spec(true, 0, 1);
            f.demand && !p.demand
        }),
{
}

/// A new click demands again once a completed press stands behind the
/// outstanding demand (or none is outstanding).
pub proof fn law_next_click_demands(s: GestureLatch)
    requires
        s.wf(),
        s.gesture_seq < u64::MAX - 1,
        s.demanded_in is None || (s.demanded_in matches Some(r) && s.last_press_seq matches Some(p) && r <= p),
    ensures
        ({
            let s1 = s.pointer_down_spec(true);
            let (_s2, p) = s1.press_spec(true, 0, 1);
            p.demand
        }),
{
}

/// Where no pointer-down reaches the handler (a host ancestor stops it),
/// every press is a gesture of its own: a click after a demanding click
/// demands again.
pub proof fn law_press_without_pointer_down_demands(s: GestureLatch)
    requires
        s.wf(),
        s.gesture_seq < u64::MAX - 1,
    ensures
        ({
            let (s1, p1) = s.press_spec(true, 0, 1);
            let (_s2, p2) = s1.press_spec(true, 0, 1);
            p1.demand ==> p2.demand
        }),
{
}

/// A drop is its own gesture: it always demands, and always refuses the
/// insertion.
pub proof fn law_drop_demands(s: GestureLatch)
    ensures
        ({
            let (_t, d) = s.drop_spec(true);
            d.demand && d.prevent_default
        }),
{
}

/// Holding a key down asks once: a second writing key under an outstanding
/// demand raises nothing.
pub proof fn law_key_demands_once(s: GestureLatch)
    ensures
        ({
            let (s1, k1) = s.key_spec(true, true);
            let (_s2, k2) = s1.key_spec(true, true);
            !k2
        }),
{
}

} // verus!
