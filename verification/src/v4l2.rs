//! The hardware controls of the capture device.
use vstd::prelude::*;

use crate::text::same_text;

verus! {

/// A request to the device: set the control `cid` to `value`.
#[derive(Clone, Copy, Debug, PartialEq, Eq, Structural)]
pub struct CtrlMsg {
    pub cid: u32,
    pub value: i32,
}

/// One hardware control: its range, its driver default and its present value.
pub struct V4l2Control {
    pub name: &'static str,
    pub label: &'static str,
    pub min: i32,
    pub max: i32,
    pub default: i32,
    pub value: i32,
}

/// The hardware controls, in the order in which they are shown.
pub struct V4l2Controls {
    pub ctrls: Vec<V4l2Control>,
}

// ---------------------------------------------------------------------------
// Presets
// ---------------------------------------------------------------------------
/// Values by the names of the controls. No name occurs twice.
pub struct Preset {
    pub items: Vec<(String, i32)>,
}

/// The pair of `items` at `i` is for the name `k`.
pub open spec fn key_at(items: Seq<(String, i32)>, k: Seq<char>, i: int) -> bool {
    0 <= i < items.len() && items[i].0@ == k
}

impl View for Preset {
    type V = Map<Seq<char>, i32>;

    open spec fn view(&self) -> Map<Seq<char>, i32> {
        Map::new(
            |k: Seq<char>| exists|i: int| key_at(self.items@, k, i),
            |k: Seq<char>| self.items@[choose|i: int| key_at(self.items@, k, i)].1,
        )
    }
}

impl Preset {
    /// No name occurs twice.
    pub open spec fn wf(&self) -> bool {
        forall|i: int, j: int|
            0 <= i < j < self.items@.len() ==> #[trigger] self.items@[i].0@
                != #[trigger] self.items@[j].0@
    }

    proof fn lemma_entry(&self, i: int)
        requires
            self.wf(),
            0 <= i < self.items@.len(),
        ensures
            self@.dom().contains(self.items@[i].0@),
            self@[self.items@[i].0@] == self.items@[i].1,
    {
        let k = self.items@[i].0@;
        assert(key_at(self.items@, k, i));
        let j = choose|j: int| key_at(self.items@, k, j);
        assert(key_at(self.items@, k, j));
        assert(i == j);
    }

    pub fn new() -> (r: Self)
        ensures
            r.wf(),
            r@ == Map::<Seq<char>, i32>::empty(),
    {
        let r = Preset { items: Vec::new() };
        assert(r@ =~= Map::<Seq<char>, i32>::empty());
        r
    }

    /// Whether there is no value.
    pub fn is_empty(&self) -> (r: bool)
        ensures
            r == (self@ == Map::<Seq<char>, i32>::empty()),
    {
        if self.items.len() == 0 {
            assert(self@ =~= Map::<Seq<char>, i32>::empty());
            true
        } else {
            assert(key_at(self.items@, self.items@[0].0@, 0));
            assert(self@.dom().contains(self.items@[0].0@));
            false
        }
    }

    /// Where the pair for `name` stands.
    fn position(&self, name: &str) -> (r: Option<usize>)
        ensures
            match r {
                Some(i) => key_at(self.items@, name@, i as int),
                None => forall|i: int| !key_at(self.items@, name@, i),
            },
    {
        let mut i: usize = 0;
        while i < self.items.len()
            invariant
                i <= self.items@.len(),
                forall|j: int| 0 <= j < i ==> !key_at(self.items@, name@, j),
            decreases self.items@.len() - i,
        {
            if same_text(self.items[i].0.as_str(), name) {
                return Some(i);
            }
            i = i + 1;
        }
        None
    }

    /// The value for `name`.
    pub fn get(&self, name: &str) -> (r: Option<i32>)
        requires
            self.wf(),
        ensures
            r == (if self@.dom().contains(name@) {
                Some(self@[name@])
            } else {
                None
            }),
    {
        match self.position(name) {
            Some(i) => {
                proof {
                    self.lemma_entry(i as int);
                }
                Some(self.items[i].1)
            },
            None => None,
        }
    }

    /// Give `name` the value `value`, in place of the one that it had.
    pub fn insert(&mut self, name: &str, value: i32)
        requires
            old(self).wf(),
        ensures
            final(self).wf(),
            final(self)@ == old(self)@.insert(name@, value),
    {
        let ghost before = *self;
        match self.position(name) {
            Some(i) => {
                let key = self.items[i].0.clone();
                self.items.set(i, (key, value));
                assert forall|a: int, b: int| 0 <= a < b < self.items@.len() implies
                    #[trigger] self.items@[a].0@ != #[trigger] self.items@[b].0@ by {
                    assert(before.items@[a].0@ != before.items@[b].0@);
                }
            },
            None => {
                self.items.push((name.to_owned(), value));
                let ghost n = before.items@.len() as int;
                assert forall|a: int, b: int| 0 <= a < b < self.items@.len() implies
                    #[trigger] self.items@[a].0@ != #[trigger] self.items@[b].0@ by {
                    assert(!key_at(before.items@, name@, a));
                    if b < n {
                        assert(before.items@[a].0@ != before.items@[b].0@);
                    }
                }
            },
        }
        proof {
            let now = *self;
            assert forall|k: Seq<char>|
                now@.dom().contains(k) == before@.insert(name@, value).dom().contains(k) by {
                if before@.dom().contains(k) {
                    let j = choose|j: int| key_at(before.items@, k, j);
                    assert(key_at(now.items@, k, j));
                }
                if now@.dom().contains(k) && k != name@ {
                    let j = choose|j: int| key_at(now.items@, k, j);
                    assert(key_at(before.items@, k, j));
                }
                if k == name@ {
                    if exists|i: int| key_at(before.items@, name@, i) {
                        let i = choose|i: int| key_at(before.items@, name@, i);
                        assert(key_at(now.items@, name@, i));
                    } else {
                        assert(key_at(now.items@, name@, before.items@.len() as int));
                    }
                }
            }
            assert forall|k: Seq<char>| now@.dom().contains(k) implies now@[k] == before@.insert(
                name@,
                value,
            )[k] by {
                let j = choose|j: int| key_at(now.items@, k, j);
                now.lemma_entry(j);
                if k != name@ {
                    assert(key_at(before.items@, k, j));
                    before.lemma_entry(j);
                }
            }
            assert(now@ =~= before@.insert(name@, value));
        }
    }
}

// ---------------------------------------------------------------------------
// The table of controls
// ---------------------------------------------------------------------------
/// How many controls the device has.
pub const CONTROL_COUNT: usize = 5;

/// The device's numbers for the controls.
pub open spec fn cid_table() -> Seq<u32> {
    seq![0x00980900u32, 0x00980901u32, 0x00980902u32, 0x00980903u32, 0x00980910u32]
}

/// The device's numbers for the controls.
pub fn control_ids() -> (r: Vec<u32>)
    ensures
        r@ == cid_table(),
{
    vec![0x00980900u32, 0x00980901u32, 0x00980902u32, 0x00980903u32, 0x00980910u32]
}

/// The request that brings a control to its present value.
pub open spec fn set_msg(ctrls: Seq<V4l2Control>, i: int) -> CtrlMsg {
    CtrlMsg { cid: cid_table()[i], value: ctrls[i].value }
}

/// `v`, moved into the range from `min` to `max`.
pub open spec fn clamped(v: i32, min: i32, max: i32) -> i32 {
    if v < min {
        min
    } else if v > max {
        max
    } else {
        v
    }
}

fn clamp(v: i32, min: i32, max: i32) -> (r: i32)
    requires
        min <= max,
    ensures
        r == clamped(v, min, max),
        min <= r <= max,
{
    if v < min {
        min
    } else if v > max {
        max
    } else {
        v
    }
}

/// How many of the controls have a number in the table.
pub open spec fn numbered(ctrls: Seq<V4l2Control>) -> int {
    if ctrls.len() < CONTROL_COUNT {
        ctrls.len() as int
    } else {
        CONTROL_COUNT as int
    }
}

/// A control after a preset was applied to it.
pub open spec fn applied(c: V4l2Control, preset: Map<Seq<char>, i32>) -> V4l2Control {
    if preset.dom().contains(c.name@) {
        V4l2Control { value: clamped(preset[c.name@], c.min, c.max), ..c }
    } else {
        c
    }
}

/// A control at its driver default.
pub open spec fn at_default(c: V4l2Control) -> V4l2Control {
    V4l2Control { value: c.default, ..c }
}

/// The requests for those of the first `n` controls that a preset names.
pub open spec fn preset_msgs(
    ctrls: Seq<V4l2Control>,
    preset: Map<Seq<char>, i32>,
    n: int,
) -> Seq<CtrlMsg>
    decreases n,
{
    if n <= 0 {
        Seq::empty()
    } else {
        let front = preset_msgs(ctrls, preset, n - 1);
        if preset.dom().contains(ctrls[n - 1].name@) {
            front.push(set_msg(ctrls, n - 1))
        } else {
            front
        }
    }
}

/// The values of the first `n` controls by their names.
pub open spec fn snapshot(ctrls: Seq<V4l2Control>, n: int) -> Map<Seq<char>, i32>
    decreases n,
{
    if n <= 0 {
        Map::empty()
    } else {
        snapshot(ctrls, n - 1).insert(ctrls[n - 1].name@, ctrls[n - 1].value)
    }
}

/// The controls after the slider moves in `moves`.
pub open spec fn moved(ctrls: Seq<V4l2Control>, moves: Seq<(usize, i32)>) -> Seq<V4l2Control>
    decreases moves.len(),
{
    if moves.len() == 0 {
        ctrls
    } else {
        let before = moved(ctrls, moves.drop_last());
        let (i, v) = moves.last();
        before.update(
            i as int,
            V4l2Control {
                value: clamped(v, before[i as int].min, before[i as int].max),
                ..before[i as int]
            },
        )
    }
}

/// The requests for the slider moves in `moves`.
pub open spec fn move_msgs(ctrls: Seq<V4l2Control>, moves: Seq<(usize, i32)>) -> Seq<CtrlMsg>
    decreases moves.len(),
{
    if moves.len() == 0 {
        Seq::empty()
    } else {
        move_msgs(ctrls, moves.drop_last()).push(
            set_msg(moved(ctrls, moves), moves.last().0 as int),
        )
    }
}

/// The values of a control are in order: its range is not empty.
pub open spec fn has_range(c: V4l2Control) -> bool {
    c.min <= c.max
}

/// The default and the present value of a control lie in its range.
pub open spec fn in_range(c: V4l2Control) -> bool {
    c.min <= c.value <= c.max && c.min <= c.default <= c.max
}

fn control(name: &'static str, label: &'static str, max: i32, default: i32) -> (r: V4l2Control)
    ensures
        r == (V4l2Control { name, label, min: 0, max, default, value: default }),
{
    V4l2Control { name, label, min: 0, max, default, value: default }
}

/// What the table says of a control.
pub open spec fn described(
    c: V4l2Control,
    name: Seq<char>,
    label: Seq<char>,
    max: i32,
    default: i32,
) -> bool {
    c.name@ == name && c.label@ == label && c.min == 0 && c.max == max && c.default == default
}

/// The controls are those of the table.
pub open spec fn from_table(c: Seq<V4l2Control>) -> bool {
    &&& c.len() == CONTROL_COUNT
    &&& described(c[0], "brightness"@, "Brightness"@, 255, 25)
    &&& described(c[1], "contrast"@, "Contrast"@, 255, 127)
    &&& described(c[2], "saturation"@, "Saturation"@, 255, 127)
    &&& described(c[3], "hue"@, "Hue"@, 127, 0)
    &&& described(c[4], "gamma"@, "Gamma"@, 50, 0)
}

impl V4l2Controls {
    /// Every control has a range.
    pub open spec fn wf(&self) -> bool {
        forall|i: int| 0 <= i < self.ctrls@.len() ==> has_range(#[trigger] self.ctrls@[i])
    }

    /// The controls of the table. `readings` holds what the device said of them; a control that
    /// it said nothing of stands at its default.
    pub fn new(readings: &Vec<Option<i32>>) -> (r: Self)
        ensures
            from_table(r.ctrls@),
            r.wf(),
            forall|i: int|
                0 <= i < CONTROL_COUNT ==> in_range(#[trigger] r.ctrls@[i]) && r.ctrls@[i].value
                    == (if i < readings@.len() && readings@[i] is Some {
                    clamped(readings@[i]->0, r.ctrls@[i].min, r.ctrls@[i].max)
                } else {
                    r.ctrls@[i].default
                }),
    {
        let mut ctrls: Vec<V4l2Control> = Vec::new();
        ctrls.push(control("brightness", "Brightness", 255, 25));
        ctrls.push(control("contrast", "Contrast", 255, 127));
        ctrls.push(control("saturation", "Saturation", 255, 127));
        ctrls.push(control("hue", "Hue", 127, 0));
        ctrls.push(control("gamma", "Gamma", 50, 0));
        let mut i: usize = 0;
        while i < ctrls.len() && i < readings.len()
            invariant
                i <= ctrls@.len(),
                i <= readings@.len(),
                from_table(ctrls@),
                forall|j: int| 0 <= j < CONTROL_COUNT ==> in_range(#[trigger] ctrls@[j]),
                forall|j: int|
                    0 <= j < CONTROL_COUNT ==> #[trigger] ctrls@[j].value == (if j < i
                        && readings@[j] is Some {
                        clamped(readings@[j]->0, ctrls@[j].min, ctrls@[j].max)
                    } else {
                        ctrls@[j].default
                    }),
            decreases ctrls@.len() - i,
        {
            if let Some(v) = readings[i] {
                assert(in_range(ctrls@[i as int]));
                let value: i32 = clamp(v, ctrls[i].min, ctrls[i].max);
                ctrls[i].value = value;
            }
            i = i + 1;
        }
        V4l2Controls { ctrls }
    }

    /// Snapshot current control values as a name→value map for persistence.
    pub fn to_preset(&self) -> (r: Preset)
        ensures
            r.wf(),
            r@ == snapshot(self.ctrls@, self.ctrls@.len() as int),
    {
        let mut r = Preset::new();
        let mut i: usize = 0;
        while i < self.ctrls.len()
            invariant
                i <= self.ctrls@.len(),
                r.wf(),
                r@ == snapshot(self.ctrls@, i as int),
            decreases self.ctrls@.len() - i,
        {
            r.insert(self.ctrls[i].name, self.ctrls[i].value);
            i = i + 1;
        }
        r
    }

    /// Apply a name→value map to the controls. Returns the requests to the device.
    pub fn apply_values(&mut self, preset: &Preset) -> (r: Vec<CtrlMsg>)
        requires
            old(self).wf(),
            preset.wf(),
        ensures
            final(self).wf(),
            final(self).ctrls@.len() == old(self).ctrls@.len(),
            forall|i: int|
                0 <= i < old(self).ctrls@.len() ==> #[trigger] final(self).ctrls@[i] == (if i
                    < CONTROL_COUNT {
                    applied(old(self).ctrls@[i], preset@)
                } else {
                    old(self).ctrls@[i]
                }),
            r@ == preset_msgs(final(self).ctrls@, preset@, numbered(old(self).ctrls@)),
    {
        let ids = control_ids();
        let ghost start = self.ctrls@;
        let mut out: Vec<CtrlMsg> = Vec::new();
        let mut i: usize = 0;
        while i < self.ctrls.len() && i < ids.len()
            invariant
                ids@ == cid_table(),
                i <= ids@.len(),
                i <= self.ctrls@.len(),
                preset.wf(),
                self.ctrls@.len() == start.len(),
                forall|j: int| 0 <= j < start.len() ==> has_range(#[trigger] start[j]),
                forall|j: int|
                    0 <= j < start.len() ==> #[trigger] self.ctrls@[j] == (if j < i {
                        applied(start[j], preset@)
                    } else {
                        start[j]
                    }),
                out@ == preset_msgs(self.ctrls@, preset@, i as int),
            decreases ids@.len() - i,
        {
            let ghost before = self.ctrls@;
            if let Some(v) = preset.get(self.ctrls[i].name) {
                assert(has_range(start[i as int]));
                let value: i32 = clamp(v, self.ctrls[i].min, self.ctrls[i].max);
                self.ctrls[i].value = value;
                out.push(CtrlMsg { cid: ids[i], value });
            }
            proof {
                lemma_preset_msgs_prefix(before, self.ctrls@, preset@, i as int);
            }
            i = i + 1;
        }
        out
    }

    /// Reset all controls to driver defaults. Returns the requests to the device.
    pub fn reset_all(&mut self) -> (r: Vec<CtrlMsg>)
        ensures
            final(self).ctrls@.len() == old(self).ctrls@.len(),
            forall|i: int|
                0 <= i < old(self).ctrls@.len() ==> #[trigger] final(self).ctrls@[i] == (if i
                    < CONTROL_COUNT {
                    at_default(old(self).ctrls@[i])
                } else {
                    old(self).ctrls@[i]
                }),
            r@ == Seq::new(
                numbered(old(self).ctrls@) as nat,
                |i: int| set_msg(final(self).ctrls@, i),
            ),
            old(self).wf() ==> final(self).wf(),
    {
        let ids = control_ids();
        let ghost start = self.ctrls@;
        let mut out: Vec<CtrlMsg> = Vec::new();
        let mut i: usize = 0;
        while i < self.ctrls.len() && i < ids.len()
            invariant
                ids@ == cid_table(),
                i <= ids@.len(),
                i <= self.ctrls@.len(),
                self.ctrls@.len() == start.len(),
                forall|j: int|
                    0 <= j < start.len() ==> #[trigger] self.ctrls@[j] == (if j < i {
                        at_default(start[j])
                    } else {
                        start[j]
                    }),
                out@ =~= Seq::new(i as nat, |j: int| set_msg(self.ctrls@, j)),
            decreases ids@.len() - i,
        {
            let value: i32 = self.ctrls[i].default;
            self.ctrls[i].value = value;
            out.push(CtrlMsg { cid: ids[i], value });
            i = i + 1;
        }
        out
    }

    /// Whether `reset_all` would change a value.
    pub fn off_default(&self) -> (r: bool)
        ensures
            r == exists|i: int|
                0 <= i < self.ctrls@.len() && i < CONTROL_COUNT && (#[trigger] self.ctrls@[i]).value
                    != self.ctrls@[i].default,
    {
        let mut i: usize = 0;
        while i < self.ctrls.len() && i < CONTROL_COUNT
            invariant
                i <= self.ctrls@.len(),
                forall|j: int|
                    0 <= j < i ==> (#[trigger] self.ctrls@[j]).value == self.ctrls@[j].default,
            decreases self.ctrls@.len() - i,
        {
            if self.ctrls[i].value != self.ctrls[i].default {
                return true;
            }
            i = i + 1;
        }
        false
    }

    /// Reset one control to its driver default. Returns the request to the device.
    pub fn reset_one(&mut self, idx: usize) -> (r: CtrlMsg)
        requires
            idx < old(self).ctrls@.len(),
            idx < CONTROL_COUNT,
        ensures
            final(self).ctrls@ == old(self).ctrls@.update(
                idx as int,
                at_default(old(self).ctrls@[idx as int]),
            ),
            r == set_msg(final(self).ctrls@, idx as int),
            old(self).wf() ==> final(self).wf(),
    {
        let ids = control_ids();
        let value: i32 = self.ctrls[idx].default;
        self.ctrls[idx].value = value;
        assert(self.ctrls@ =~= old(self).ctrls@.update(
            idx as int,
            at_default(old(self).ctrls@[idx as int]),
        ));
        CtrlMsg { cid: ids[idx], value }
    }

    /// What one frame of the slider panel did: the sliders that moved, in order, then the control
    /// whose reset button was clicked. Returns the requests to the device, and whether a value
    /// changed.
    pub fn apply_panel(&mut self, moves: &Vec<(usize, i32)>, reset: Option<usize>) -> (r: (
        Vec<CtrlMsg>,
        bool,
    ))
        requires
            old(self).wf(),
            forall|k: int|
                0 <= k < moves@.len() ==> (#[trigger] moves@[k]).0 < CONTROL_COUNT && moves@[k].0
                    < old(self).ctrls@.len(),
            reset matches Some(i) ==> i < CONTROL_COUNT && i < old(self).ctrls@.len(),
        ensures
            ({
                let slid = moved(old(self).ctrls@, moves@);
                let msgs = move_msgs(old(self).ctrls@, moves@);
                match reset {
                    Some(i) => {
                        &&& final(self).ctrls@ == slid.update(i as int, at_default(slid[i as int]))
                        &&& r.0@ == msgs.push(set_msg(final(self).ctrls@, i as int))
                    },
                    None => final(self).ctrls@ == slid && r.0@ == msgs,
                }
            }),
            r.1 == (moves@.len() > 0 || reset is Some),
            final(self).wf(),
            final(self).ctrls@.len() == old(self).ctrls@.len(),
    {
        let ids = control_ids();
        let ghost start = self.ctrls@;
        let mut out: Vec<CtrlMsg> = Vec::new();
        let mut k: usize = 0;
        assert(moves@.take(0) =~= Seq::<(usize, i32)>::empty());
        while k < moves.len()
            invariant
                k <= moves@.len(),
                ids@ == cid_table(),
                start.len() == self.ctrls@.len(),
                self.wf(),
                forall|j: int|
                    0 <= j < moves@.len() ==> (#[trigger] moves@[j]).0 < CONTROL_COUNT
                        && moves@[j].0 < start.len(),
                self.ctrls@ == moved(start, moves@.take(k as int)),
                out@ == move_msgs(start, moves@.take(k as int)),
            decreases moves@.len() - k,
        {
            let i: usize = moves[k].0;
            let ghost before = self.ctrls@;
            assert(moves@.take(k + 1).drop_last() =~= moves@.take(k as int));
            assert(moves@.take(k + 1).last() == moves@[k as int]);
            assert(has_range(before[i as int]));
            let value: i32 = clamp(moves[k].1, self.ctrls[i].min, self.ctrls[i].max);
            self.ctrls[i].value = value;
            assert(self.ctrls@ =~= before.update(
                i as int,
                V4l2Control { value, ..before[i as int] },
            ));
            assert(self.wf()) by {
                assert forall|j: int| 0 <= j < self.ctrls@.len() implies has_range(
                    #[trigger] self.ctrls@[j],
                ) by {
                    assert(has_range(before[j]));
                }
            }
            out.push(CtrlMsg { cid: ids[i], value });
            k = k + 1;
        }
        assert(moves@.take(moves@.len() as int) =~= moves@);
        if let Some(i) = reset {
            let msg = self.reset_one(i);
            out.push(msg);
        }
        (out, moves.len() > 0 || reset.is_some())
    }
}

/// The requests for the first controls do not depend on the others.
proof fn lemma_preset_msgs_prefix(
    a: Seq<V4l2Control>,
    b: Seq<V4l2Control>,
    preset: Map<Seq<char>, i32>,
    n: int,
)
    requires
        0 <= n <= a.len(),
        a.len() == b.len(),
        forall|i: int| 0 <= i < n ==> a[i] == b[i],
    ensures
        preset_msgs(a, preset, n) == preset_msgs(b, preset, n),
    decreases n,
{
    if n > 0 {
        lemma_preset_msgs_prefix(a, b, preset, n - 1);
    }
}

// ---------------------------------------------------------------------------
// Laws
// ---------------------------------------------------------------------------
/// No operation moves a control out of its range.
pub proof fn law_values_stay_in_range(c: V4l2Control, preset: Map<Seq<char>, i32>)
    requires
        in_range(c),
    ensures
        in_range(applied(c, preset)),
        in_range(at_default(c)),
{
}

/// Slider moves leave every control in its range.
pub proof fn law_moves_stay_in_range(ctrls: Seq<V4l2Control>, moves: Seq<(usize, i32)>)
    requires
        forall|i: int| 0 <= i < ctrls.len() ==> in_range(#[trigger] ctrls[i]),
        forall|k: int| 0 <= k < moves.len() ==> (#[trigger] moves[k]).0 < ctrls.len(),
    ensures
        moved(ctrls, moves).len() == ctrls.len(),
        forall|i: int| 0 <= i < ctrls.len() ==> in_range(#[trigger] moved(ctrls, moves)[i]),
    decreases moves.len(),
{
    if moves.len() > 0 {
        assert forall|k: int| 0 <= k < moves.drop_last().len() implies (
        #[trigger] moves.drop_last()[k]).0 < ctrls.len() by {
            assert(moves.drop_last()[k] == moves[k]);
        }
        law_moves_stay_in_range(ctrls, moves.drop_last());
        let before = moved(ctrls, moves.drop_last());
        let i = moves.last().0 as int;
        assert(moves.last() == moves[moves.len() - 1]);
        assert(in_range(before[i]));
    }
}

proof fn lemma_snapshot(ctrls: Seq<V4l2Control>, n: int, i: int)
    requires
        0 <= i < n <= ctrls.len(),
        forall|a: int, b: int|
            0 <= a < b < ctrls.len() ==> #[trigger] ctrls[a].name@ != #[trigger] ctrls[b].name@,
    ensures
        snapshot(ctrls, n).dom().contains(ctrls[i].name@),
        snapshot(ctrls, n)[ctrls[i].name@] == ctrls[i].value,
    decreases n,
{
    if i < n - 1 {
        lemma_snapshot(ctrls, n - 1, i);
        assert(ctrls[i].name@ != ctrls[n - 1].name@);
    }
}

/// Applying the snapshot of controls that are in range, and have names of their own, leaves each
/// of them as it is.
pub proof fn law_snapshot_applies_to_itself(ctrls: Seq<V4l2Control>, i: int)
    requires
        0 <= i < ctrls.len(),
        in_range(ctrls[i]),
        forall|a: int, b: int|
            0 <= a < b < ctrls.len() ==> #[trigger] ctrls[a].name@ != #[trigger] ctrls[b].name@,
    ensures
        applied(ctrls[i], snapshot(ctrls, ctrls.len() as int)) == ctrls[i],
{
    lemma_snapshot(ctrls, ctrls.len() as int, i);
}

/// A device's own preset changes nothing: what `to_preset` took of the controls of the table,
/// `apply_values` gives back to each of them.
pub proof fn law_device_round_trip(ctrls: Seq<V4l2Control>, i: int)
    requires
        from_table(ctrls),
        0 <= i < ctrls.len(),
        in_range(ctrls[i]),
    ensures
        applied(ctrls[i], snapshot(ctrls, ctrls.len() as int)) == ctrls[i],
{
    reveal_strlit("brightness");
    reveal_strlit("contrast");
    reveal_strlit("saturation");
    reveal_strlit("hue");
    reveal_strlit("gamma");
    assert("brightness"@[0] == 'b' && "saturation"@[0] == 's');
    assert("brightness"@ != "saturation"@);
    assert(ctrls[0].name@ == "brightness"@ && ctrls[1].name@ == "contrast"@ && ctrls[2].name@
        == "saturation"@ && ctrls[3].name@ == "hue"@ && ctrls[4].name@ == "gamma"@);
    assert("brightness"@.len() == 10 && "contrast"@.len() == 8 && "saturation"@.len() == 10
        && "hue"@.len() == 3 && "gamma"@.len() == 5);
    assert forall|a: int, b: int| 0 <= a < b < ctrls.len() implies #[trigger] ctrls[a].name@
        != #[trigger] ctrls[b].name@ by {
        assert(CONTROL_COUNT == 5);
        assert(a == 0 || a == 1 || a == 2 || a == 3);
        assert(b == 1 || b == 2 || b == 3 || b == 4);
    }
    law_snapshot_applies_to_itself(ctrls, i);
}

/// A preset gives a control the value that it has for it: the very value where that is in range,
/// and the nearest end of the range where it is not. A control that the preset does not name stays
/// as it is, and nothing but values changes.
pub proof fn law_preset_gives_values(c: V4l2Control, preset: Map<Seq<char>, i32>, v: i32)
    requires
        c.min <= c.max,
    ensures
        ({
            let t = applied(c, preset);
            &&& t.name == c.name && t.label == c.label && t.min == c.min && t.max == c.max
                && t.default == c.default
            &&& !preset.dom().contains(c.name@) ==> t.value == c.value
            &&& preset.dom().contains(c.name@) && preset[c.name@] == v ==> {
                &&& c.min <= v <= c.max ==> t.value == v
                &&& v < c.min ==> t.value == c.min
                &&& v > c.max ==> t.value == c.max
            }
        }),
{
}

/// What is saved of the controls is the value of each under its name.
pub proof fn law_snapshot_holds_the_values(ctrls: Seq<V4l2Control>, i: int, name: Seq<char>)
    requires
        0 <= i < ctrls.len(),
        forall|a: int, b: int|
            0 <= a < b < ctrls.len() ==> #[trigger] ctrls[a].name@ != #[trigger] ctrls[b].name@,
    ensures
        snapshot(ctrls, ctrls.len() as int).dom().contains(ctrls[i].name@),
        snapshot(ctrls, ctrls.len() as int)[ctrls[i].name@] == ctrls[i].value,
        (forall|k: int| 0 <= k < ctrls.len() ==> (#[trigger] ctrls[k]).name@ != name)
            ==> !snapshot(ctrls, ctrls.len() as int).dom().contains(name),
{
    lemma_snapshot(ctrls, ctrls.len() as int, i);
    if forall|k: int| 0 <= k < ctrls.len() ==> (#[trigger] ctrls[k]).name@ != name {
        lemma_snapshot_names(ctrls, ctrls.len() as int, name);
    }
}

proof fn lemma_snapshot_names(ctrls: Seq<V4l2Control>, n: int, name: Seq<char>)
    requires
        0 <= n <= ctrls.len(),
        forall|k: int| 0 <= k < ctrls.len() ==> (#[trigger] ctrls[k]).name@ != name,
    ensures
        !snapshot(ctrls, n).dom().contains(name),
    decreases n,
{
    if n > 0 {
        lemma_snapshot_names(ctrls, n - 1, name);
        assert(ctrls[n - 1].name@ != name);
    }
}

/// The device is told of every control that a preset names, in the order of the controls, and of
/// no other: a request for one control more is added exactly where the preset names it, with the
/// number of the control and the value that it has.
pub proof fn law_preset_requests(
    ctrls: Seq<V4l2Control>,
    preset: Map<Seq<char>, i32>,
    n: int,
)
    requires
        0 <= n < ctrls.len(),
        n < CONTROL_COUNT,
    ensures
        preset_msgs(ctrls, preset, 0).len() == 0,
        preset.dom().contains(ctrls[n].name@) ==> preset_msgs(ctrls, preset, n + 1) == preset_msgs(
            ctrls,
            preset,
            n,
        ).push(CtrlMsg { cid: cid_table()[n], value: ctrls[n].value }),
        !preset.dom().contains(ctrls[n].name@) ==> preset_msgs(ctrls, preset, n + 1)
            == preset_msgs(ctrls, preset, n),
{
}

/// The numbers by which the device knows brightness, contrast, saturation, hue and gamma. No two
/// are the same.
pub proof fn law_control_numbers(i: int, j: int)
    requires
        0 <= i < CONTROL_COUNT,
        0 <= j < CONTROL_COUNT,
    ensures
        cid_table().len() == CONTROL_COUNT,
        i != j ==> cid_table()[i] != cid_table()[j],
        0 <= i < 4 ==> cid_table()[i] == 0x00980900 + i,
        cid_table()[4] == 0x00980910,
{
}

/// The last move of a slider decides where its control stands, in its range; every other control
/// stays where the moves before left it. The device is told of each move, with where the control
/// then stands.
pub proof fn law_last_move_decides(
    ctrls: Seq<V4l2Control>,
    moves: Seq<(usize, i32)>,
    i: usize,
    v: i32,
    k: int,
)
    requires
        forall|j: int| 0 <= j < moves.len() ==> (#[trigger] moves[j]).0 < ctrls.len(),
        forall|j: int| 0 <= j < ctrls.len() ==> in_range(#[trigger] ctrls[j]),
        i < ctrls.len(),
        0 <= k < ctrls.len(),
    ensures
        ({
            let before = moved(ctrls, moves);
            let after = moved(ctrls, moves.push((i, v)));
            &&& k != i ==> after[k] == before[k]
            &&& before[i as int].min <= v <= before[i as int].max ==> after[i as int].value == v
            &&& v < before[i as int].min ==> after[i as int].value == before[i as int].min
            &&& v > before[i as int].max ==> after[i as int].value == before[i as int].max
            &&& after[i as int].name == before[i as int].name
            &&& after[i as int].default == before[i as int].default
            &&& move_msgs(ctrls, moves.push((i, v))) == move_msgs(ctrls, moves).push(
                CtrlMsg { cid: cid_table()[i as int], value: after[i as int].value },
            )
        }),
        moved(ctrls, Seq::empty()) == ctrls,
        move_msgs(ctrls, Seq::empty()).len() == 0,
{
    let m = moves.push((i, v));
    assert(m.drop_last() =~= moves);
    law_moves_stay_in_range(ctrls, moves);
    assert(in_range(moved(ctrls, moves)[i as int]));
}

/// A reset gives a control its default and changes nothing else of it.
pub proof fn law_reset_gives_the_default(c: V4l2Control)
    ensures
        at_default(c).value == c.default,
        (V4l2Control { value: c.value, ..at_default(c) }) == c,
{
}

} // verus!
