use vstd::prelude::*;

use crate::decoder::{decode, spec_decode, DecodedFrame, PenButtons};
use crate::device_id::DeviceID;
use crate::device_info::DeviceInfo;
use crate::interfaces::{state_of, Button, ButtonState, PartialUpdate};

verus! {

/// Per-device mutable state: identity, last raw pointer position and the
/// set of buttons currently held down.
#[derive(Debug)]
pub struct DeviceStateInner {
    id: DeviceID,
    pen_position: (u32, u32),
    button_state: Vec<Button>,
}

/// Mathematical model of a device's state.
pub struct DeviceStateView {
    pub id: DeviceID,
    pub pen_position: (u32, u32),
    pub pressed: Set<Button>,
}

impl View for DeviceStateInner {
    type V = DeviceStateView;

    closed spec fn view(&self) -> DeviceStateView {
        DeviceStateView {
            id: self.id,
            pen_position: self.pen_position,
            pressed: self.button_state@.to_set(),
        }
    }
}

/// The edge event, if any, that a button bit causes against the pressed set:
/// one event exactly when the bit differs from the set's membership.
pub open spec fn edge(pressed: Set<Button>, b: Button, bit: bool) -> Seq<PartialUpdate> {
    if pressed.contains(b) != bit {
        seq![PartialUpdate::Button(b, state_of(bit))]
    } else {
        Seq::empty()
    }
}

/// The pressed set after a button bit has been applied.
pub open spec fn with_bit(pressed: Set<Button>, b: Button, bit: bool) -> Set<Button> {
    if bit {
        pressed.insert(b)
    } else {
        pressed.remove(b)
    }
}

/// Edges of the three pen buttons, tip first.
pub open spec fn pen_edges(pressed: Set<Button>, bt: PenButtons) -> Seq<PartialUpdate> {
    edge(pressed, Button::PenTip, bt.tip) + edge(pressed, Button::PenPrimary, bt.primary) + edge(
        pressed,
        Button::PenSecondary,
        bt.secondary,
    )
}

/// Pressed set after the three pen-button bits.
pub open spec fn pen_pressed(pressed: Set<Button>, bt: PenButtons) -> Set<Button> {
    with_bit(
        with_bit(with_bit(pressed, Button::PenTip, bt.tip), Button::PenPrimary, bt.primary),
        Button::PenSecondary,
        bt.secondary,
    )
}

/// Events of one decoded frame: a pointer frame gives its sample, then the
/// edges of its button bits; other frames give nothing.
pub open spec fn apply_events(pressed: Set<Button>, frame: DecodedFrame) -> Seq<PartialUpdate> {
    match frame {
        DecodedFrame::Pen(sample, bt) => seq![PartialUpdate::Pen(sample)] + pen_edges(pressed, bt),
        _ => Seq::empty(),
    }
}

/// Pressed set after one decoded frame.
pub open spec fn apply_pressed(pressed: Set<Button>, frame: DecodedFrame) -> Set<Button> {
    match frame {
        DecodedFrame::Pen(_, bt) => pen_pressed(pressed, bt),
        _ => pressed,
    }
}

/// Device state after one decoded frame.
pub open spec fn apply_view(v: DeviceStateView, frame: DecodedFrame) -> DeviceStateView {
    match frame {
        DecodedFrame::Pen(sample, bt) => DeviceStateView {
            id: v.id,
            pen_position: (sample.position.0.num, sample.position.1.num),
            pressed: pen_pressed(v.pressed, bt),
        },
        _ => v,
    }
}

/// The fresh state of a device that has just been claimed.
pub open spec fn fresh_view(info: DeviceInfo) -> DeviceStateView {
    DeviceStateView { id: info.id, pen_position: (0, 0), pressed: Set::empty() }
}

/// A fresh state for the device that `device_info` describes.
pub fn new_device_state(device_info: &DeviceInfo) -> (r: DeviceStateInner)
    ensures
        r.wf(),
        r@ == fresh_view(*device_info),
{
    let r = DeviceStateInner { id: device_info.id, pen_position: (0, 0), button_state: Vec::new() };
    assert(r@.pressed =~= Set::<Button>::empty());
    r
}

fn index_of(v: &Vec<Button>, b: Button) -> (r: Option<usize>)
    ensures
        r is None ==> !v@.contains(b),
        r is Some ==> r->0 < v@.len() && v@[r->0 as int] == b,
{
    let mut i: usize = 0;
    while i < v.len()
        invariant
            i <= v@.len(),
            forall|j: int| 0 <= j < i ==> v@[j] != b,
        decreases v.len() - i,
    {
        if v[i] == b {
            return Some(i);
        }
        i = i + 1;
    }
    None
}

impl DeviceStateInner {
    /// The held buttons are stored without repetition.
    pub closed spec fn wf(&self) -> bool {
        self.button_state@.no_duplicates()
    }

    pub fn id(&self) -> (r: DeviceID)
        ensures
            r == self@.id,
    {
        self.id
    }

    pub fn pen_position(&self) -> (r: (u32, u32))
        ensures
            r == self@.pen_position,
    {
        self.pen_position
    }

    pub fn is_pressed(&self, button: Button) -> (r: bool)
        ensures
            r == self@.pressed.contains(button),
    {
        index_of(&self.button_state, button).is_some()
    }

    /// Compares one button bit with the held set; on a change records it and
    /// appends the matching edge to `events`.
    pub fn update_button(&mut self, button: Button, pressed: bool, events: &mut Vec<PartialUpdate>)
        requires
            old(self).wf(),
        ensures
            final(self).wf(),
            final(self)@ == (DeviceStateView {
                pressed: with_bit(old(self)@.pressed, button, pressed),
                ..old(self)@
            }),
            final(events)@ == old(events)@ + edge(old(self)@.pressed, button, pressed),
    {
        let ghost s0 = self.button_state@;
        let found = index_of(&self.button_state, button);
        proof {
            if found is Some {
                assert(s0.to_set().contains(button));
            } else {
                assert(!s0.to_set().contains(button));
            }
        }
        if found.is_some() ^ pressed {
            if pressed {
                self.button_state.push(button);
                events.push(PartialUpdate::Button(button, ButtonState::Press));
                proof {
                    let s1 = self.button_state@;
                    assert(s1 == s0.push(button));
                    assert forall|x: Button| s1.contains(x) <==> s0.contains(x) || x == button by {
                        if s1.contains(x) {
                            let i = choose|i: int| 0 <= i < s1.len() && s1[i] == x;
                            if i < s0.len() {
                                assert(s0[i] == x);
                            }
                        }
                        if s0.contains(x) {
                            let i = choose|i: int| 0 <= i < s0.len() && s0[i] == x;
                            assert(s1[i] == x);
                        }
                        if x == button {
                            assert(s1[s0.len() as int] == x);
                        }
                    }
                    assert(self.button_state@.to_set() =~= s0.to_set().insert(button));
                    assert(self.button_state@.no_duplicates()) by {
                        assert forall|i: int, j: int|
                            0 <= i < self.button_state@.len() && 0 <= j < self.button_state@.len()
                                && i != j implies self.button_state@[i]
                            != self.button_state@[j] by {
                            if i < s0.len() && j < s0.len() {
                            } else if i == s0.len() {
                                assert(s0.contains(s0[j]));
                            } else {
                                assert(s0.contains(s0[i]));
                            }
                        }
                    }
                }
            } else {
                let k = found.unwrap();
                self.button_state.remove(k);
                events.push(PartialUpdate::Button(button, ButtonState::Release));
                proof {
                    let s1 = self.button_state@;
                    assert(s1 == s0.remove(k as int));
                    assert forall|x: Button| s1.contains(x) <==> s0.contains(x) && x != button by {
                        if s1.contains(x) {
                            let i = choose|i: int| 0 <= i < s1.len() && s1[i] == x;
                            if i < k {
                                assert(s0[i] == x);
                            } else {
                                assert(s0[i + 1] == x);
                            }
                        }
                        if s0.contains(x) && x != button {
                            let i = choose|i: int| 0 <= i < s0.len() && s0[i] == x;
                            if i < k {
                                assert(s1[i] == x);
                            } else {
                                assert(i != k);
                                assert(s1[i - 1] == x);
                            }
                        }
                    }
                    assert(s1.to_set() =~= s0.to_set().remove(button));
                }
            }
        } else {
            proof {
                if pressed {
                    assert(s0.to_set().insert(button) =~= s0.to_set());
                } else {
                    assert(s0.to_set().remove(button) =~= s0.to_set());
                }
            }
        }
        assert(final(events)@ =~= old(events)@ + edge(old(self)@.pressed, button, pressed));
    }

    /// Turns one decoded frame into events: a pointer frame always yields its
    /// sample, followed by one edge for each pen-button bit that differs from
    /// the held set (tip, then primary, then secondary).
    pub fn apply(&mut self, frame: &DecodedFrame) -> (r: Vec<PartialUpdate>)
        requires
            old(self).wf(),
        ensures
            final(self).wf(),
            final(self)@ == apply_view(old(self)@, *frame),
            r@ == apply_events(old(self)@.pressed, *frame),
    {
        let mut events: Vec<PartialUpdate> = Vec::new();
        match frame {
            DecodedFrame::Pen(sample, buttons) => {
                events.push(PartialUpdate::Pen(*sample));
                self.pen_position = (sample.position.0.num, sample.position.1.num);
                self.update_button(Button::PenTip, buttons.tip, &mut events);
                self.update_button(Button::PenPrimary, buttons.primary, &mut events);
                self.update_button(Button::PenSecondary, buttons.secondary, &mut events);
                assert(events@ =~= apply_events(old(self)@.pressed, *frame));
            },
            _ => {},
        }
        events
    }

    /// One step of a device reader: decodes a raw report and applies it.
    /// Reports that decode to nothing leave the state alone and yield no
    /// events.
    pub fn handle_packet(&mut self, info: &DeviceInfo, packet: &[u8]) -> (r: Vec<PartialUpdate>)
        requires
            old(self).wf(),
        ensures
            final(self).wf(),
            match spec_decode(packet@, *info) {
                Some(frame) => final(self)@ == apply_view(old(self)@, frame) && r@ == apply_events(
                    old(self)@.pressed,
                    frame,
                ),
                None => final(self)@ == old(self)@ && r@.len() == 0,
            },
    {
        match decode(packet, info) {
            Some(frame) => self.apply(&frame),
            None => Vec::new(),
        }
    }
}

/// The bit that a frame carries for a button: pointer frames carry the
/// three pen buttons, nothing else carries any.
pub open spec fn frame_bit(frame: DecodedFrame, b: Button) -> Option<bool> {
    match frame {
        DecodedFrame::Pen(_, bt) => if b == Button::PenTip {
            Some(bt.tip)
        } else if b == Button::PenPrimary {
            Some(bt.primary)
        } else if b == Button::PenSecondary {
            Some(bt.secondary)
        } else {
            None
        },
        _ => None,
    }
}

/// Held set after applying a run of frames in order.
pub open spec fn run_pressed(pressed: Set<Button>, frames: Seq<DecodedFrame>) -> Set<Button>
    decreases frames.len(),
{
    if frames.len() == 0 {
        pressed
    } else {
        apply_pressed(run_pressed(pressed, frames.drop_last()), frames.last())
    }
}

/// Events of a run of frames applied in order.
pub open spec fn run_events(pressed: Set<Button>, frames: Seq<DecodedFrame>) -> Seq<PartialUpdate>
    decreases frames.len(),
{
    if frames.len() == 0 {
        Seq::empty()
    } else {
        run_events(pressed, frames.drop_last()) + apply_events(
            run_pressed(pressed, frames.drop_last()),
            frames.last(),
        )
    }
}

/// The edge that one event gives for a button, if any.
pub open spec fn event_edge(e: PartialUpdate, b: Button) -> Seq<ButtonState> {
    match e {
        PartialUpdate::Button(x, st) => if x == b {
            seq![st]
        } else {
            Seq::empty()
        },
        _ => Seq::empty(),
    }
}

/// The edges of one button in an event sequence, in order.
pub open spec fn edges_of(events: Seq<PartialUpdate>, b: Button) -> Seq<ButtonState>
    decreases events.len(),
{
    if events.len() == 0 {
        Seq::empty()
    } else {
        edges_of(events.drop_last(), b) + event_edge(events.last(), b)
    }
}

proof fn lemma_edges_of_concat(x: Seq<PartialUpdate>, y: Seq<PartialUpdate>, b: Button)
    ensures
        edges_of(x + y, b) == edges_of(x, b) + edges_of(y, b),
    decreases y.len(),
{
    if y.len() == 0 {
        assert(x + y =~= x);
        assert(edges_of(x, b) + edges_of(y, b) =~= edges_of(x, b));
    } else {
        lemma_edges_of_concat(x, y.drop_last(), b);
        assert((x + y).drop_last() =~= x + y.drop_last());
        assert((x + y).last() == y.last());
        assert(edges_of(x + y, b) =~= edges_of(x, b) + edges_of(y, b));
    }
}

proof fn lemma_edges_of_single(e: PartialUpdate, b: Button)
    ensures
        edges_of(seq![e], b) == event_edge(e, b),
{
    assert(seq![e].drop_last() =~= Seq::<PartialUpdate>::empty());
    assert(seq![e].last() == e);
    assert(edges_of(Seq::<PartialUpdate>::empty(), b) =~= Seq::<ButtonState>::empty());
    assert(edges_of(seq![e], b) =~= event_edge(e, b));
}

proof fn lemma_edges_of_edge(pressed: Set<Button>, x: Button, bit: bool, b: Button)
    ensures
        edges_of(edge(pressed, x, bit), b) == (if x == b {
            edge_states(pressed, b, bit)
        } else {
            Seq::<ButtonState>::empty()
        }),
{
    if pressed.contains(x) != bit {
        lemma_edges_of_single(PartialUpdate::Button(x, state_of(bit)), b);
    } else {
        assert(edges_of(edge(pressed, x, bit), b) =~= Seq::<ButtonState>::empty());
    }
}

/// The edge states that a bit causes for a button against the held set.
pub open spec fn edge_states(pressed: Set<Button>, b: Button, bit: bool) -> Seq<ButtonState> {
    if pressed.contains(b) != bit {
        seq![state_of(bit)]
    } else {
        Seq::empty()
    }
}

/// Applying one frame that carries a bit for `b`: at most one edge for `b`,
/// exactly when the bit differs from the held set, and `b` is held after it
/// exactly when the bit is set.
proof fn lemma_frame_edges(pressed: Set<Button>, frame: DecodedFrame, b: Button, bit: bool)
    requires
        frame_bit(frame, b) == Some(bit),
    ensures
        edges_of(apply_events(pressed, frame), b) == edge_states(pressed, b, bit),
        apply_pressed(pressed, frame).contains(b) == bit,
{
    match frame {
        DecodedFrame::Pen(sample, bt) => {
            let e0 = seq![PartialUpdate::Pen(sample)];
            let e1 = edge(pressed, Button::PenTip, bt.tip);
            let e2 = edge(pressed, Button::PenPrimary, bt.primary);
            let e3 = edge(pressed, Button::PenSecondary, bt.secondary);
            assert(apply_events(pressed, frame) =~= e0 + e1 + e2 + e3);
            lemma_edges_of_concat(e0 + e1 + e2, e3, b);
            lemma_edges_of_concat(e0 + e1, e2, b);
            lemma_edges_of_concat(e0, e1, b);
            lemma_edges_of_single(PartialUpdate::Pen(sample), b);
            lemma_edges_of_edge(pressed, Button::PenTip, bt.tip, b);
            lemma_edges_of_edge(pressed, Button::PenPrimary, bt.primary, b);
            lemma_edges_of_edge(pressed, Button::PenSecondary, bt.secondary, b);
            assert(event_edge(PartialUpdate::Pen(sample), b) =~= Seq::<ButtonState>::empty());
            if b == Button::PenTip {
                assert(edges_of(apply_events(pressed, frame), b) =~= edge_states(pressed, b, bit));
            } else if b == Button::PenPrimary {
                assert(edges_of(apply_events(pressed, frame), b) =~= edge_states(pressed, b, bit));
            } else {
                assert(edges_of(apply_events(pressed, frame), b) =~= edge_states(pressed, b, bit));
            }
        },
        _ => {},
    }
}

/// Holding one button bit steady across a run of frames gives at most one
/// edge for that button: exactly one when the held state differs from the
/// state before the run, none otherwise; the button ends up held exactly
/// when the bit is set.
pub proof fn lemma_steady_bit_single_edge(
    pressed: Set<Button>,
    frames: Seq<DecodedFrame>,
    b: Button,
    held: bool,
)
    requires
        frames.len() > 0,
        forall|i: int| 0 <= i < frames.len() ==> frame_bit(#[trigger] frames[i], b) == Some(held),
    ensures
        edges_of(run_events(pressed, frames), b) == edge_states(pressed, b, held),
        run_pressed(pressed, frames).contains(b) == held,
    decreases frames.len(),
{
    let init = frames.drop_last();
    assert(frame_bit(frames[frames.len() - 1], b) == Some(held));
    if frames.len() == 1 {
        assert(init =~= Seq::<DecodedFrame>::empty());
        assert(run_events(pressed, init) =~= Seq::<PartialUpdate>::empty());
        assert(run_pressed(pressed, init) == pressed);
        assert(run_events(pressed, frames) == Seq::<PartialUpdate>::empty() + apply_events(
            pressed,
            frames.last(),
        ));
        lemma_frame_edges(pressed, frames.last(), b, held);
        lemma_edges_of_concat(Seq::empty(), apply_events(pressed, frames.last()), b);
        assert(Seq::<PartialUpdate>::empty() + apply_events(pressed, frames.last()) =~= apply_events(
            pressed,
            frames.last(),
        ));
        assert(edges_of(Seq::<PartialUpdate>::empty(), b) =~= Seq::<ButtonState>::empty());
        assert(Seq::<ButtonState>::empty() + edge_states(pressed, b, held) =~= edge_states(
            pressed,
            b,
            held,
        ));
    } else {
        assert forall|i: int| 0 <= i < init.len() implies frame_bit(#[trigger] init[i], b) == Some(
            held,
        ) by {
            assert(init[i] == frames[i]);
        }
        lemma_steady_bit_single_edge(pressed, init, b, held);
        let q = run_pressed(pressed, init);
        lemma_frame_edges(q, frames.last(), b, held);
        lemma_edges_of_concat(run_events(pressed, init), apply_events(q, frames.last()), b);
        assert(edges_of(run_events(pressed, frames), b) =~= edge_states(pressed, b, held));
    }
}

proof fn lemma_run_concat(pressed: Set<Button>, a: Seq<DecodedFrame>, c: Seq<DecodedFrame>)
    ensures
        run_pressed(pressed, a + c) == run_pressed(run_pressed(pressed, a), c),
        run_events(pressed, a + c) == run_events(pressed, a) + run_events(
            run_pressed(pressed, a),
            c,
        ),
    decreases c.len(),
{
    if c.len() == 0 {
        assert(a + c =~= a);
        assert(run_events(pressed, a) + run_events(run_pressed(pressed, a), c) =~= run_events(
            pressed,
            a,
        ));
    } else {
        lemma_run_concat(pressed, a, c.drop_last());
        assert((a + c).drop_last() =~= a + c.drop_last());
        assert((a + c).last() == c.last());
        assert(run_events(pressed, a + c) =~= run_events(pressed, a) + run_events(
            run_pressed(pressed, a),
            c,
        ));
    }
}

/// A button held down across one run of frames and then released across a
/// second run gives exactly one press followed by exactly one release.
pub proof fn lemma_press_hold_release(
    pressed: Set<Button>,
    down: Seq<DecodedFrame>,
    up: Seq<DecodedFrame>,
    b: Button,
)
    requires
        !pressed.contains(b),
        down.len() > 0,
        up.len() > 0,
        forall|i: int| 0 <= i < down.len() ==> frame_bit(#[trigger] down[i], b) == Some(true),
        forall|i: int| 0 <= i < up.len() ==> frame_bit(#[trigger] up[i], b) == Some(false),
    ensures
        edges_of(run_events(pressed, down + up), b) == seq![
            ButtonState::Press,
            ButtonState::Release,
        ],
{
    lemma_run_concat(pressed, down, up);
    lemma_steady_bit_single_edge(pressed, down, b, true);
    lemma_steady_bit_single_edge(run_pressed(pressed, down), up, b, false);
    lemma_edges_of_concat(
        run_events(pressed, down),
        run_events(run_pressed(pressed, down), up),
        b,
    );
    assert(edges_of(run_events(pressed, down + up), b) =~= seq![
        ButtonState::Press,
        ButtonState::Release,
    ]);
}

/// Applying a frame a second time changes nothing and gives no button edge:
/// a pointer frame yields only its sample again, any other frame nothing.
pub proof fn lemma_reapply_only_sample(pressed: Set<Button>, frame: DecodedFrame)
    ensures
        apply_pressed(apply_pressed(pressed, frame), frame) == apply_pressed(pressed, frame),
        apply_events(apply_pressed(pressed, frame), frame) == (match frame {
            DecodedFrame::Pen(sample, _) => seq![PartialUpdate::Pen(sample)],
            _ => Seq::<PartialUpdate>::empty(),
        }),
{
    match frame {
        DecodedFrame::Pen(sample, bt) => {
            let q = pen_pressed(pressed, bt);
            assert(pen_pressed(q, bt) =~= q);
            assert(pen_edges(q, bt) =~= Seq::<PartialUpdate>::empty());
            assert(apply_events(q, frame) =~= seq![PartialUpdate::Pen(sample)]);
        },
        _ => {},
    }
}

/// Applying a frame without pointer data a second time yields no events.
pub proof fn lemma_reapply_silent(pressed: Set<Button>, frame: DecodedFrame)
    requires
        !(frame is Pen),
    ensures
        apply_events(apply_pressed(pressed, frame), frame).len() == 0,
{
    lemma_reapply_only_sample(pressed, frame);
}

} // verus!
