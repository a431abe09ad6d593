//! The overlay's state on the Legacy Select screen: whether it shows, its
//! hotkey, its captions, and the affinity values captured from the game.
//!
//! Every hook of the game and every frame goes through one `Affinity` value;
//! the methods below are the decisions taken on each event.
use vstd::prelude::*;

use crate::config::{
    default_label_p1, default_label_p2, default_label_total, default_toggle_key,
    function_key_number, is_off_name, is_single_key, lemma_normalize_keeps_key, normalize_name,
    normalized, parent1_label_text, parent2_label_text, parse_vk, spec_parse_vk, toggle_key_text,
    total_label_text, BadgeLabels, Settings,
};
use crate::slots::{
    assign_by_identity, assigned, lemma_swapped_call_keeps_display, lemma_values_follow_parents,
    parent_ptr_set, ptr_set, Slots,
};
use crate::text::{
    all_ascii, ascii_upper_seq, chars_of, is_control, is_control_exec, lemma_trim_idempotent, lemma_trim_noop,
    lemma_trim_slice, string_of, trim, trim_chars, trim_start_offset,
};

verus! {

/// The abstract state of the overlay.
pub struct AffinityView {
    pub enabled: bool,
    /// Virtual-key code of the hotkey, 0 when it is off.
    pub toggle_vk: u32,
    pub toggle_name: Seq<char>,
    pub label_total: Seq<char>,
    pub label_p1: Seq<char>,
    pub label_p2: Seq<char>,
    /// Whether the hotkey was down at the previous poll.
    pub toggle_was_down: bool,
    /// The Legacy Select screen object, 0 when the screen is not open.
    pub step: usize,
    pub total: i32,
    pub ind1: i32,
    pub ind2: i32,
    /// Non-zero once values were captured on this screen.
    pub val_ts: u64,
    pub dialog_open: bool,
    pub last_trainee: i32,
    /// The parents whose branch values are shown in slot 1 and slot 2.
    pub last_p1: usize,
    pub last_p2: usize,
}

impl AffinityView {
    /// Stored captions are short and free of control characters; captured
    /// values are either absent (all -1, no parent) or consistent: a branch
    /// value is shown only in a slot that holds a parent.
    pub open spec fn wf(self) -> bool {
        &&& caption_ok(self.label_total)
        &&& caption_ok(self.label_p1)
        &&& caption_ok(self.label_p2)
        &&& self.val_ts <= 1
        &&& self.last_p1 != 0
        &&& self.last_p2 != 0
        &&& self.last_p1 == usize::MAX ==> self.ind1 == -1
        &&& self.last_p2 == usize::MAX ==> self.ind2 == -1
        &&& self.val_ts == 0 ==> {
            &&& self.total == -1
            &&& self.last_p1 == usize::MAX
            &&& self.last_p2 == usize::MAX
        }
    }

    /// The captured values dropped.
    pub open spec fn cleared(self) -> Self {
        AffinityView {
            total: -1i32,
            ind1: -1i32,
            ind2: -1i32,
            val_ts: 0,
            last_p1: usize::MAX,
            last_p2: usize::MAX,
            ..self
        }
    }

    /// New values captured for a trainee.
    pub open spec fn with_values(self, s: Slots, total: i32, trainee: i32) -> Self {
        AffinityView {
            total: total,
            ind1: s.0,
            ind2: s.1,
            val_ts: 1,
            last_trainee: trainee,
            last_p1: if ptr_set(s.2) {
                s.2
            } else {
                usize::MAX
            },
            last_p2: if ptr_set(s.3) {
                s.3
            } else {
                usize::MAX
            },
            ..self
        }
    }

    /// The values shown were computed for exactly this call.
    pub open spec fn values_cached(self, trainee: i32, p1: usize, p2: usize, total: i32) -> bool {
        &&& self.last_trainee == trainee
        &&& self.last_p1 == p1
        &&& self.last_p2 == p2
        &&& self.val_ts != 0
        &&& self.total == total
    }

    pub open spec fn spec_values(self) -> Option<(i32, i32, i32)> {
        if self.val_ts == 0 {
            None
        } else {
            Some((self.total, self.ind1, self.ind2))
        }
    }

    pub open spec fn spec_should_draw(self) -> bool {
        &&& self.enabled
        &&& self.step != 0
        &&& !self.dialog_open
        &&& self.val_ts != 0
        &&& (self.ind1 >= 0 || self.ind2 >= 0)
    }

    /// The badges to draw: position index, caption and value, for each value
    /// that is known.
    pub open spec fn spec_badges(self) -> Seq<(usize, Seq<char>, i32)> {
        if self.val_ts == 0 {
            Seq::empty()
        } else {
            (if self.total >= 0 {
                seq![(0usize, label_or(self.label_total, total_label_text()), self.total)]
            } else {
                Seq::empty()
            }) + (if self.ind1 >= 0 {
                seq![(1usize, label_or(self.label_p1, parent1_label_text()), self.ind1)]
            } else {
                Seq::empty()
            }) + (if self.ind2 >= 0 {
                seq![(2usize, label_or(self.label_p2, parent2_label_text()), self.ind2)]
            } else {
                Seq::empty()
            })
        }
    }

    /// Whether a poll of the hotkey toggles the overlay: the hotkey is on, the
    /// game has the focus, and the key went down since the previous poll.
    pub open spec fn poll_toggles(self, down: bool, focused: bool) -> bool {
        self.toggle_vk != 0 && focused && down && !self.toggle_was_down
    }

    /// The state after a poll of the hotkey.
    pub open spec fn polled(self, down: bool, focused: bool) -> Self {
        AffinityView {
            toggle_was_down: self.toggle_vk != 0 && down,
            enabled: if self.poll_toggles(down, focused) {
                !self.enabled
            } else {
                self.enabled
            },
            ..self
        }
    }

    /// Whether a computed total asks for the parents' branch values: on Legacy
    /// Select, not the call whose values are shown, a parent present, and the
    /// total within 0..=800.
    pub open spec fn calc_needs_branches(self, trainee: i32, p1: usize, p2: usize, total: i32) -> bool {
        &&& self.step != 0
        &&& !self.values_cached(trainee, p1, p2, total)
        &&& (ptr_set(p1) || ptr_set(p2))
        &&& 0 <= total <= 800
    }

    /// The state after a total is computed, before any branch value.
    pub open spec fn calc_begun(self, trainee: i32, p1: usize, p2: usize, total: i32) -> Self {
        if self.step != 0 && !self.values_cached(trainee, p1, p2, total) && !ptr_set(p1)
            && !ptr_set(p2) {
            AffinityView { last_trainee: trainee, ..self.cleared() }
        } else {
            self
        }
    }

    /// The state after the branch values of a call are stored.
    pub open spec fn calc_finished(
        self,
        trainee: i32,
        p1: usize,
        p2: usize,
        total: i32,
        va: i32,
        vb: i32,
    ) -> Self {
        self.with_values(assigned(p1, p2, va, vb, self.last_p1, self.last_p2), total, trainee)
    }

    /// The state after the defaults for the hotkey and the captions are set.
    pub open spec fn with_defaults(self) -> Self {
        AffinityView {
            toggle_name: toggle_key_text(),
            label_total: total_label_text(),
            label_p1: parent1_label_text(),
            label_p2: parent2_label_text(),
            toggle_vk: 0x50,
            ..self
        }
    }

    /// The state after settings are applied.
    pub open spec fn with_settings(
        self,
        enabled: bool,
        toggle_key: Seq<char>,
        label_total: Seq<char>,
        label_p1: Seq<char>,
        label_p2: Seq<char>,
    ) -> Self {
        AffinityView {
            enabled: enabled,
            toggle_vk: vk_or_zero(spec_parse_vk(normalized(toggle_key))),
            toggle_name: normalized(toggle_key),
            label_total: sanitized(label_total, total_label_text()),
            label_p1: sanitized(label_p1, parent1_label_text()),
            label_p2: sanitized(label_p2, parent2_label_text()),
            ..self
        }
    }
}

/// The state when the plugin is loaded.
pub open spec fn initial_view() -> AffinityView {
    AffinityView {
        enabled: true,
        toggle_vk: 0x50,
        toggle_name: Seq::empty(),
        label_total: Seq::empty(),
        label_p1: Seq::empty(),
        label_p2: Seq::empty(),
        toggle_was_down: false,
        step: 0,
        total: -1i32,
        ind1: -1i32,
        ind2: -1i32,
        val_ts: 0,
        dialog_open: false,
        last_trainee: i32::MIN,
        last_p1: usize::MAX,
        last_p2: usize::MAX,
    }
}

pub open spec fn vk_or_zero(v: Option<u32>) -> u32 {
    match v {
        Some(k) => k,
        None => 0,
    }
}

/// A stored caption as shown: trimmed, or the fallback when nothing is left.
pub open spec fn label_or(stored: Seq<char>, fallback: Seq<char>) -> Seq<char> {
    if trim(stored).len() == 0 {
        fallback
    } else {
        trim(stored)
    }
}

/// A caption as stored: at most 24 characters, none of them a control character.
pub open spec fn caption_ok(l: Seq<char>) -> bool {
    &&& l.len() <= 24
    &&& forall|i: int| 0 <= i < l.len() ==> !is_control(#[trigger] l[i])
}

/// The first `n` characters, or all of them when there are fewer.
pub open spec fn at_most(s: Seq<char>, n: int) -> Seq<char> {
    if s.len() <= n {
        s
    } else {
        s.take(n)
    }
}

pub open spec fn printable(s: Seq<char>) -> Seq<char> {
    s.filter(|c: char| !is_control(c))
}

/// A caption from the settings: trimmed, without control characters, at most
/// 24 characters; the fallback when nothing is left.
pub open spec fn sanitized(s: Seq<char>, fallback: Seq<char>) -> Seq<char> {
    let t = at_most(printable(trim(s)), 24);
    if t.len() == 0 {
        fallback
    } else {
        t
    }
}

/// A caption from the settings: trimmed, control characters removed, cut to
/// 24 characters, and the fallback when nothing is left.
pub fn sanitize_label(s: &str, fallback: &str) -> (r: String)
    ensures
        r@ == sanitized(s@, fallback@),
{
    let chars = chars_of(s);
    let t = trim_chars(&chars);
    let mut out: Vec<char> = Vec::new();
    let mut i: usize = 0;
    assert(t@.subrange(0, 0) =~= Seq::<char>::empty());
    proof {
        reveal_with_fuel(Seq::<_>::filter, 1);
    }
    while i < t.len()
        invariant
            i <= t.len(),
            out@ == at_most(printable(t@.subrange(0, i as int)), 24),
        decreases t.len() - i,
    {
        let c = t[i];
        let ghost prev = t@.subrange(0, i as int);
        let ghost next = t@.subrange(0, i + 1);
        proof {
            assert(next.drop_last() =~= prev);
            reveal_with_fuel(Seq::<_>::filter, 1);
            assert(printable(next) == if !is_control(c) {
                printable(prev).push(c)
            } else {
                printable(prev)
            });
        }
        if !is_control_exec(c) && out.len() < 24 {
            out.push(c);
            proof {
                assert(out@ =~= at_most(printable(next), 24));
            }
        } else {
            proof {
                if !is_control(c) {
                    assert(at_most(printable(next), 24) =~= at_most(printable(prev), 24));
                }
            }
        }
        i += 1;
    }
    assert(t@.subrange(0, t.len() as int) =~= t@);
    if out.len() == 0 {
        String::from_str(fallback)
    } else {
        string_of(&out)
    }
}

/// The caption as shown: the stored one trimmed, or the fallback when it is blank.
fn label_get(stored: &String, fallback: &str) -> (r: String)
    ensures
        r@ == label_or(stored@, fallback@),
{
    let chars = chars_of(stored.as_str());
    let t = trim_chars(&chars);
    if t.len() == 0 {
        String::from_str(fallback)
    } else {
        string_of(&t)
    }
}

/// The state line of the settings menu.
#[derive(Clone, Copy, Debug, PartialEq, Eq)]
pub enum MenuStatus {
    /// The overlay is switched off.
    OverlayDisabled,
    /// The swap chain hook is not ready.
    PresentNotReady,
    /// Badges are being drawn.
    BadgesDrawing,
    /// On Legacy Select, hidden behind a detail dialog.
    HiddenByDialog,
    /// On Legacy Select, no values captured yet.
    WaitingForCalc,
    /// Not on Legacy Select.
    Idle,
}

pub struct Affinity {
    enabled: bool,
    toggle_vk: u32,
    toggle_name: String,
    label_total: String,
    label_p1: String,
    label_p2: String,
    toggle_was_down: bool,
    step: usize,
    total: i32,
    ind1: i32,
    ind2: i32,
    val_ts: u64,
    dialog_open: bool,
    last_trainee: i32,
    last_p1: usize,
    last_p2: usize,
}

impl View for Affinity {
    type V = AffinityView;

    closed spec fn view(&self) -> AffinityView {
        AffinityView {
            enabled: self.enabled,
            toggle_vk: self.toggle_vk,
            toggle_name: self.toggle_name@,
            label_total: self.label_total@,
            label_p1: self.label_p1@,
            label_p2: self.label_p2@,
            toggle_was_down: self.toggle_was_down,
            step: self.step,
            total: self.total,
            ind1: self.ind1,
            ind2: self.ind2,
            val_ts: self.val_ts,
            dialog_open: self.dialog_open,
            last_trainee: self.last_trainee,
            last_p1: self.last_p1,
            last_p2: self.last_p2,
        }
    }
}

impl Affinity {
    /// The state when the plugin is loaded: shown, hotkey `P` (code 0x50), no
    /// captions stored, not on Legacy Select, nothing captured.
    pub fn new() -> (r: Self)
        ensures
            r@ == initial_view(),
            r@.wf(),
    {
        Affinity {
            enabled: true,
            toggle_vk: 0x50,
            toggle_name: String::new(),
            label_total: String::new(),
            label_p1: String::new(),
            label_p2: String::new(),
            toggle_was_down: false,
            step: 0,
            total: -1i32,
            ind1: -1i32,
            ind2: -1i32,
            val_ts: 0,
            dialog_open: false,
            last_trainee: i32::MIN,
            last_p1: usize::MAX,
            last_p2: usize::MAX,
        }
    }

    pub fn is_enabled(&self) -> (r: bool)
        ensures
            r == self@.enabled,
    {
        self.enabled
    }

    /// Shows or hides the overlay (the caller then saves the settings).
    pub fn set_enabled(&mut self, on: bool)
        requires
            old(self)@.wf(),
        ensures
            final(self)@ == (AffinityView { enabled: on, ..old(self)@ }),
            final(self)@.wf(),
    {
        self.enabled = on;
    }

    /// The hotkey's virtual-key code, 0 when the hotkey is off.
    pub fn toggle_vk(&self) -> (r: u32)
        ensures
            r == self@.toggle_vk,
    {
        self.toggle_vk
    }

    /// The hotkey's name as stored.
    pub fn toggle_key_name(&self) -> (r: String)
        ensures
            r@ == self@.toggle_name,
    {
        self.toggle_name.clone()
    }

    /// One poll of the hotkey, given whether it is down and whether the game
    /// window has the focus. A press (down now, up at the previous poll) in the
    /// focused game toggles the overlay; the result says whether it did.
    pub fn poll_toggle_hotkey(&mut self, down: bool, focused: bool) -> (toggled: bool)
        requires
            old(self)@.wf(),
        ensures
            toggled == old(self)@.poll_toggles(down, focused),
            final(self)@ == old(self)@.polled(down, focused),
            final(self)@.wf(),
    {
        if self.toggle_vk == 0 {
            self.toggle_was_down = false;
            return false;
        }
        if !focused {
            self.toggle_was_down = down;
            return false;
        }
        let was = self.toggle_was_down;
        self.toggle_was_down = down;
        if down && !was {
            let next = !self.enabled;
            self.set_enabled(next);
            true
        } else {
            false
        }
    }

    fn clear_cached_values(&mut self)
        ensures
            final(self)@ == old(self)@.cleared(),
    {
        self.total = -1;
        self.ind1 = -1;
        self.ind2 = -1;
        self.val_ts = 0;
        self.last_p1 = usize::MAX;
        self.last_p2 = usize::MAX;
    }

    /// Whether the Legacy Select screen is open.
    pub fn on_legacy_select(&self) -> (r: bool)
        ensures
            r == (self@.step != 0),
    {
        self.step != 0
    }

    /// Whether badges are to be drawn: shown, on Legacy Select, no dialog over
    /// it, and a branch value known.
    pub fn should_draw_badges(&self) -> (r: bool)
        ensures
            r == self@.spec_should_draw(),
    {
        if !self.is_enabled() || !self.on_legacy_select() || self.dialog_open {
            return false;
        }
        match self.values() {
            None => false,
            Some((_, ind1, ind2)) => ind1 >= 0 || ind2 >= 0,
        }
    }

    pub fn dialog_open(&self) -> (r: bool)
        ensures
            r == self@.dialog_open,
    {
        self.dialog_open
    }

    pub fn label_total(&self) -> (r: String)
        ensures
            r@ == label_or(self@.label_total, total_label_text()),
    {
        let r = label_get(&self.label_total, "Total");
        proof {
            reveal_strlit("Total");
        }
        assert("Total"@ =~= total_label_text());
        r
    }

    pub fn label_parent1(&self) -> (r: String)
        ensures
            r@ == label_or(self@.label_p1, parent1_label_text()),
    {
        let r = label_get(&self.label_p1, "Parent 1");
        proof {
            reveal_strlit("Parent 1");
        }
        assert("Parent 1"@ =~= parent1_label_text());
        r
    }

    pub fn label_parent2(&self) -> (r: String)
        ensures
            r@ == label_or(self@.label_p2, parent2_label_text()),
    {
        let r = label_get(&self.label_p2, "Parent 2");
        proof {
            reveal_strlit("Parent 2");
        }
        assert("Parent 2"@ =~= parent2_label_text());
        r
    }

    /// The badges to draw: (position index, caption, value) for the total and
    /// each branch value that is known, in that order.
    pub fn badge_items(&self) -> (r: Vec<(usize, String, i32)>)
        ensures
            r@.len() == self@.spec_badges().len(),
            forall|i: int|
                0 <= i < r@.len() ==> {
                    &&& (#[trigger] r@[i]).0 == self@.spec_badges()[i].0
                    &&& r@[i].1@ == self@.spec_badges()[i].1
                    &&& r@[i].2 == self@.spec_badges()[i].2
                },
    {
        let (total, ind1, ind2) = match self.values() {
            None => {
                return Vec::new();
            },
            Some(v) => v,
        };
        let ghost v = self@;
        let ghost a: Seq<(usize, Seq<char>, i32)> = if total >= 0 {
            seq![(0usize, label_or(v.label_total, total_label_text()), total)]
        } else {
            Seq::empty()
        };
        let ghost b: Seq<(usize, Seq<char>, i32)> = if ind1 >= 0 {
            seq![(1usize, label_or(v.label_p1, parent1_label_text()), ind1)]
        } else {
            Seq::empty()
        };
        let ghost c: Seq<(usize, Seq<char>, i32)> = if ind2 >= 0 {
            seq![(2usize, label_or(v.label_p2, parent2_label_text()), ind2)]
        } else {
            Seq::empty()
        };
        let mut out: Vec<(usize, String, i32)> = Vec::new();
        if total >= 0 {
            out.push((0, self.label_total(), total));
        }
        assert(out@.len() == a.len());
        if ind1 >= 0 {
            out.push((1, self.label_parent1(), ind1));
        }
        assert(out@.len() == (a + b).len());
        assert forall|i: int| 0 <= i < out@.len() implies {
            &&& (#[trigger] out@[i]).0 == (a + b)[i].0
            &&& out@[i].1@ == (a + b)[i].1
            &&& out@[i].2 == (a + b)[i].2
        } by {}
        if ind2 >= 0 {
            out.push((2, self.label_parent2(), ind2));
        }
        assert(v.spec_badges() =~= a + b + c);
        out
    }

    /// The captured (total, branch 1, branch 2), once values were captured.
    pub fn values(&self) -> (r: Option<(i32, i32, i32)>)
        ensures
            r == self@.spec_values(),
    {
        if self.val_ts == 0 {
            return None;
        }
        Some((self.total, self.ind1, self.ind2))
    }

    /// Applies settings: the hotkey name is normalised and its key code taken
    /// from the normalised name, the captions are sanitised.
    pub fn apply_cfg(
        &mut self,
        enabled: bool,
        toggle_key: &str,
        label_total: &str,
        label_p1: &str,
        label_p2: &str,
    )
        requires
            old(self)@.wf(),
        ensures
            final(self)@ == old(self)@.with_settings(
                enabled,
                toggle_key@,
                label_total@,
                label_p1@,
                label_p2@,
            ),
            final(self)@.wf(),
    {
        self.enabled = enabled;
        let normalized = normalize_name(toggle_key);
        self.toggle_vk = match parse_vk(normalized.as_str()) {
            Some(k) => k,
            None => 0,
        };
        self.toggle_name = normalized;
        let t = sanitize_label(label_total, "Total");
        let p1 = sanitize_label(label_p1, "Parent 1");
        let p2 = sanitize_label(label_p2, "Parent 2");
        proof {
            reveal_strlit("Total");
            reveal_strlit("Parent 1");
            reveal_strlit("Parent 2");
            assert("Total"@ =~= total_label_text());
            assert("Parent 1"@ =~= parent1_label_text());
            assert("Parent 2"@ =~= parent2_label_text());
        }
        proof {
            lemma_sanitized_caption(label_total@, total_label_text());
            lemma_sanitized_caption(label_p1@, parent1_label_text());
            lemma_sanitized_caption(label_p2@, parent2_label_text());
            lemma_default_captions();
        }
        self.label_total = t;
        self.label_p1 = p1;
        self.label_p2 = p2;
    }

    /// Sets the default hotkey (`P`) and captions, then applies the settings
    /// read from the settings file when there are any.
    pub fn load_defaults_and_cfg(&mut self, cfg: Option<&Settings>)
        requires
            old(self)@.wf(),
        ensures
            cfg is None ==> final(self)@ == old(self)@.with_defaults(),
            cfg matches Some(c) ==> final(self)@ == old(self)@.with_defaults().with_settings(
                c.enabled,
                c.toggle_key@,
                c.labels.total@,
                c.labels.parent_1@,
                c.labels.parent_2@,
            ),
            final(self)@.wf(),
    {
        self.toggle_name = default_toggle_key();
        self.label_total = default_label_total();
        self.label_p1 = default_label_p1();
        self.label_p2 = default_label_p2();
        self.toggle_vk = 0x50;
        proof {
            lemma_default_captions();
        }
        match cfg {
            None => {},
            Some(c) => {
                self.apply_cfg(
                    c.enabled,
                    c.toggle_key.as_str(),
                    c.labels.total.as_str(),
                    c.labels.parent_1.as_str(),
                    c.labels.parent_2.as_str(),
                );
            },
        }
    }

    /// The settings as they are to be saved.
    pub fn snapshot_cfg(&self) -> (r: Settings)
        ensures
            r.enabled == self@.enabled,
            r.toggle_key@ == self@.toggle_name,
            r.labels.total@ == label_or(self@.label_total, total_label_text()),
            r.labels.parent_1@ == label_or(self@.label_p1, parent1_label_text()),
            r.labels.parent_2@ == label_or(self@.label_p2, parent2_label_text()),
    {
        Settings {
            enabled: self.is_enabled(),
            toggle_key: self.toggle_key_name(),
            labels: BadgeLabels {
                total: self.label_total(),
                parent_1: self.label_parent1(),
                parent_2: self.label_parent2(),
            },
        }
    }

    fn store_values(&mut self, s: Slots, total: i32, trainee: i32)
        requires
            old(self)@.wf(),
            !ptr_set(s.2) ==> s.0 == -1,
            !ptr_set(s.3) ==> s.1 == -1,
        ensures
            final(self)@ == old(self)@.with_values(s, total, trainee),
            final(self)@.wf(),
    {
        self.total = total;
        self.ind1 = s.0;
        self.ind2 = s.1;
        self.val_ts = 1;
        self.last_trainee = trainee;
        self.last_p1 = if parent_ptr_set(s.2) {
            s.2
        } else {
            usize::MAX
        };
        self.last_p2 = if parent_ptr_set(s.3) {
            s.3
        } else {
            usize::MAX
        };
    }

    /// The game computed `total` for a trainee and parents `p1`, `p2`. Returns
    /// whether the branch values of the parents are to be computed next (then
    /// `calc_finish` stores them). Nothing is captured off Legacy Select, for a
    /// call whose values are already shown, or for a total outside 0..=800; a
    /// call without parents drops the captured values.
    pub fn calc_begin(&mut self, trainee: i32, p1: usize, p2: usize, total: i32) -> (need_branches:
        bool)
        requires
            old(self)@.wf(),
        ensures
            need_branches == old(self)@.calc_needs_branches(trainee, p1, p2, total),
            final(self)@ == old(self)@.calc_begun(trainee, p1, p2, total),
            final(self)@.wf(),
    {
        if self.step == 0 {
            return false;
        }
        if self.last_trainee == trainee && self.last_p1 == p1 && self.last_p2 == p2 && self.val_ts
            != 0 && self.total == total {
            return false;
        }
        if !parent_ptr_set(p1) && !parent_ptr_set(p2) {
            self.clear_cached_values();
            self.last_trainee = trainee;
            return false;
        }
        if !(0 <= total && total <= 800) {
            return false;
        }
        true
    }

    /// Stores the values of a call: the total, and the branch values `va` (of
    /// `p1`) and `vb` (of `p2`) assigned to the slots by parent identity.
    pub fn calc_finish(&mut self, trainee: i32, p1: usize, p2: usize, total: i32, va: i32, vb: i32)
        requires
            old(self)@.wf(),
        ensures
            final(self)@ == old(self)@.calc_finished(trainee, p1, p2, total, va, vb),
            final(self)@.wf(),
    {
        let s = assign_by_identity(p1, p2, va, vb, self.last_p1, self.last_p2);
        proof {
            lemma_values_follow_parents(p1, p2, va, vb, old(self)@.last_p1, old(self)@.last_p2);
        }
        self.store_values(s, total, trainee);
    }

    /// The Legacy Select screen was shown (`this` is the screen object).
    pub fn on_show(&mut self, this: usize)
        requires
            old(self)@.wf(),
        ensures
            final(self)@ == (AffinityView {
                step: if this != 0 {
                    this
                } else {
                    old(self)@.step
                },
                ..old(self)@.cleared()
            }),
            final(self)@.wf(),
    {
        if this != 0 {
            self.step = this;
        }
        self.clear_cached_values();
    }

    /// The Legacy Select screen was hidden.
    pub fn on_hide(&mut self)
        requires
            old(self)@.wf(),
        ensures
            final(self)@ == (AffinityView {
                step: 0,
                dialog_open: false,
                last_trainee: i32::MIN,
                ..old(self)@.cleared()
            }),
            final(self)@.wf(),
    {
        self.step = 0;
        self.clear_cached_values();
        self.dialog_open = false;
        self.last_trainee = i32::MIN;
    }

    /// The game reported whether a dialog is shown.
    pub fn on_dialog_query(&mut self, open: bool)
        requires
            old(self)@.wf(),
        ensures
            final(self)@ == (AffinityView { dialog_open: open, ..old(self)@ }),
            final(self)@.wf(),
    {
        self.dialog_open = open;
    }

    /// The state line of the settings menu, given whether the swap chain hook
    /// is ready.
    pub fn menu_status(&self, present_ok: bool) -> (r: MenuStatus)
        ensures
            r == (if !self@.enabled {
                MenuStatus::OverlayDisabled
            } else if !present_ok {
                MenuStatus::PresentNotReady
            } else if self@.spec_should_draw() {
                MenuStatus::BadgesDrawing
            } else if self@.step != 0 && self@.dialog_open {
                MenuStatus::HiddenByDialog
            } else if self@.step != 0 {
                MenuStatus::WaitingForCalc
            } else {
                MenuStatus::Idle
            }),
    {
        if !self.is_enabled() {
            MenuStatus::OverlayDisabled
        } else if !present_ok {
            MenuStatus::PresentNotReady
        } else if self.should_draw_badges() {
            MenuStatus::BadgesDrawing
        } else if self.on_legacy_select() && self.dialog_open() {
            MenuStatus::HiddenByDialog
        } else if self.on_legacy_select() {
            MenuStatus::WaitingForCalc
        } else {
            MenuStatus::Idle
        }
    }

    /// The colour (red, green, blue) of the menu's state line: red when the
    /// overlay is off, green while badges are drawn, amber otherwise.
    pub fn status_color(&self) -> (r: (u8, u8, u8))
        ensures
            r == (if !self@.enabled {
                (220u8, 120u8, 100u8)
            } else if self@.spec_should_draw() {
                (90u8, 220u8, 120u8)
            } else {
                (220u8, 180u8, 80u8)
            }),
    {
        if !self.is_enabled() {
            (220, 120, 100)
        } else if self.should_draw_badges() {
            (90, 220, 120)
        } else {
            (220, 180, 80)
        }
    }
}

/// Holding the hotkey down toggles the overlay once: the first poll that sees
/// it down toggles, the next ones do not, until it is released.
pub proof fn lemma_held_hotkey_toggles_once(v: AffinityView)
    requires
        v.toggle_vk != 0,
        !v.toggle_was_down,
    ensures
        v.poll_toggles(true, true),
        !v.polled(true, true).poll_toggles(true, true),
        v.polled(true, true).polled(true, true).enabled == !v.enabled,
{
}

/// Press, release, press: the overlay is toggled twice and is back as it was.
pub proof fn lemma_two_presses_restore(v: AffinityView)
    requires
        v.toggle_vk != 0,
        !v.toggle_was_down,
    ensures
        v.polled(true, true).polled(false, true).polled(true, true).enabled == v.enabled,
{
}

/// Without focus, or with the hotkey off, no poll toggles the overlay.
pub proof fn lemma_unfocused_never_toggles(v: AffinityView, down: bool, focused: bool)
    requires
        v.toggle_vk == 0 || !focused,
    ensures
        !v.poll_toggles(down, focused),
        v.polled(down, focused).enabled == v.enabled,
{
}

/// When the game asks again for the pair whose values are shown, with the
/// parents in swapped order, each branch value stays under its parent.
pub proof fn lemma_swapped_call_keeps_slots(
    v: AffinityView,
    trainee: i32,
    total: i32,
    va: i32,
    vb: i32,
)
    requires
        v.wf(),
        ptr_set(v.last_p1),
        ptr_set(v.last_p2),
        v.last_p1 != v.last_p2,
    ensures
        ({
            let w = v.calc_finished(trainee, v.last_p2, v.last_p1, total, vb, va);
            &&& w.ind1 == va
            &&& w.ind2 == vb
            &&& w.last_p1 == v.last_p1
            &&& w.last_p2 == v.last_p2
            &&& w.spec_values() == Some((total, va, vb))
        }),
{
    lemma_swapped_call_keeps_display(v.last_p1, v.last_p2, va, vb);
}

/// A call whose values are already shown changes nothing and asks for nothing.
pub proof fn lemma_repeated_call_is_cached(v: AffinityView, trainee: i32, total: i32)
    requires
        v.values_cached(trainee, v.last_p1, v.last_p2, total),
    ensures
        !v.calc_needs_branches(trainee, v.last_p1, v.last_p2, total),
        v.calc_begun(trainee, v.last_p1, v.last_p2, total) == v,
{
}

/// Off Legacy Select, or behind a dialog, no badge is drawn.
pub proof fn lemma_no_badges_off_screen(v: AffinityView)
    requires
        v.step == 0 || v.dialog_open || !v.enabled,
    ensures
        !v.spec_should_draw(),
{
}

/// Applying settings stores the key code of the configured hotkey name (for
/// names whose trimmed text is ASCII).
pub proof fn lemma_applied_key_matches_name(
    v: AffinityView,
    enabled: bool,
    toggle_key: Seq<char>,
    label_total: Seq<char>,
    label_p1: Seq<char>,
    label_p2: Seq<char>,
)
    requires
        all_ascii(trim(toggle_key)),
    ensures
        v.with_settings(enabled, toggle_key, label_total, label_p1, label_p2).toggle_vk
            == vk_or_zero(spec_parse_vk(toggle_key)),
{
    lemma_normalize_keeps_key(toggle_key);
}

/// The default captions are valid stored captions and their own trim.
pub proof fn lemma_default_captions()
    ensures
        caption_ok(total_label_text()),
        caption_ok(parent1_label_text()),
        caption_ok(parent2_label_text()),
        trim(total_label_text()) == total_label_text(),
        trim(parent1_label_text()) == parent1_label_text(),
        trim(parent2_label_text()) == parent2_label_text(),
{
    lemma_trim_noop(total_label_text());
    lemma_trim_noop(parent1_label_text());
    lemma_trim_noop(parent2_label_text());
}

/// A caption from the settings is the fallback, or a non-empty text of at most
/// 24 characters without control characters.
pub proof fn lemma_sanitized_caption(s: Seq<char>, fallback: Seq<char>)
    ensures
        sanitized(s, fallback) == fallback || {
            let t = sanitized(s, fallback);
            &&& 0 < t.len() <= 24
            &&& forall|i: int| 0 <= i < t.len() ==> !is_control(#[trigger] t[i])
        },
{
    let p = printable(trim(s));
    let t = at_most(p, 24);
    assert forall|i: int| 0 <= i < t.len() implies !is_control(#[trigger] t[i]) by {
        trim(s).lemma_filter_pred(|c: char| !is_control(c), i);
        assert(t[i] == p[i]);
    }
}

/// Text of the hook installation report.
pub open spec fn install_notes(calc_hooked: bool, step_hooks: Option<(bool, bool)>, dialog_hooked: bool) -> Seq<
    char,
> {
    (if calc_hooked {
        "calc:ok "@
    } else {
        "calc:miss "@
    }) + match step_hooks {
        None => "step:miss "@,
        Some((show, hide)) => (if show {
            "show:ok "@
        } else {
            "show:fail "@
        }) + (if hide {
            "hide:ok "@
        } else {
            "hide:fail "@
        }),
    } + (if dialog_hooked {
        "dialog:ok"@
    } else {
        "dialog:miss"@
    })
}

/// The report of the hook installation: whether the affinity computation was
/// hooked, the Legacy Select show/hide hooks (`None` when the screen class was
/// not found), and the dialog query hook.
pub fn install_report(calc_hooked: bool, step_hooks: Option<(bool, bool)>, dialog_hooked: bool) -> (r:
    String)
    ensures
        r@ == "affinity: "@ + trim(install_notes(calc_hooked, step_hooks, dialog_hooked)),
{
    let mut notes = String::new();
    if calc_hooked {
        notes.append("calc:ok ");
    } else {
        notes.append("calc:miss ");
    }
    match step_hooks {
        None => notes.append("step:miss "),
        Some((show, hide)) => {
            if show {
                notes.append("show:ok ");
            } else {
                notes.append("show:fail ");
            }
            if hide {
                notes.append("hide:ok ");
            } else {
                notes.append("hide:fail ");
            }
        },
    }
    if dialog_hooked {
        notes.append("dialog:ok");
    } else {
        notes.append("dialog:miss");
    }
    assert(notes@ =~= install_notes(calc_hooked, step_hooks, dialog_hooked));
    let chars = chars_of(notes.as_str());
    let trimmed = trim_chars(&chars);
    let mut out = String::from_str("affinity: ");
    let tail = string_of(&trimmed);
    out.append(tail.as_str());
    out
}

proof fn lemma_printable_keeps_clean(s: Seq<char>)
    requires
        forall|i: int| 0 <= i < s.len() ==> !is_control(#[trigger] s[i]),
    ensures
        printable(s) == s,
    decreases s.len(),
{
    reveal_with_fuel(Seq::<_>::filter, 1);
    if s.len() > 0 {
        let d = s.drop_last();
        assert forall|i: int| 0 <= i < d.len() implies !is_control(#[trigger] d[i]) by {
            assert(d[i] == s[i]);
        }
        lemma_printable_keeps_clean(d);
        assert(!is_control(s[s.len() - 1]));
        assert(d.push(s.last()) =~= s);
    }
}

/// A caption as shown, when read back as a setting, is kept as it is.
proof fn lemma_shown_caption_reloads(stored: Seq<char>, fallback: Seq<char>)
    requires
        caption_ok(stored),
        caption_ok(fallback),
        fallback.len() > 0,
        trim(fallback) == fallback,
    ensures
        label_or(sanitized(label_or(stored, fallback), fallback), fallback) == label_or(
            stored,
            fallback,
        ),
{
    let l = label_or(stored, fallback);
    lemma_trim_slice(stored);
    lemma_trim_idempotent(stored);
    assert(caption_ok(l)) by {
        if trim(stored).len() > 0 {
            assert forall|i: int| 0 <= i < l.len() implies !is_control(#[trigger] l[i]) by {
                assert(l[i] == stored[trim_start_offset(stored) + i]);
            }
        }
    }
    assert(trim(l) == l);
    lemma_printable_keeps_clean(l);
    assert(at_most(printable(trim(l)), 24) == l);
}

/// Saving the settings and reading them back keeps what the overlay shows:
/// the on/off state and the captions; the hotkey code read back is the code of
/// the stored hotkey name (for names whose trimmed text is ASCII).
pub proof fn lemma_saved_settings_reload(v: AffinityView)
    requires
        v.wf(),
    ensures
        ({
            let w = v.with_settings(
                v.enabled,
                v.toggle_name,
                label_or(v.label_total, total_label_text()),
                label_or(v.label_p1, parent1_label_text()),
                label_or(v.label_p2, parent2_label_text()),
            );
            &&& w.enabled == v.enabled
            &&& label_or(w.label_total, total_label_text()) == label_or(
                v.label_total,
                total_label_text(),
            )
            &&& label_or(w.label_p1, parent1_label_text()) == label_or(
                v.label_p1,
                parent1_label_text(),
            )
            &&& label_or(w.label_p2, parent2_label_text()) == label_or(
                v.label_p2,
                parent2_label_text(),
            )
            &&& all_ascii(trim(v.toggle_name)) ==> w.toggle_vk == vk_or_zero(
                spec_parse_vk(v.toggle_name),
            )
        }),
{
    lemma_default_captions();
    lemma_shown_caption_reloads(v.label_total, total_label_text());
    lemma_shown_caption_reloads(v.label_p1, parent1_label_text());
    lemma_shown_caption_reloads(v.label_p2, parent2_label_text());
    if all_ascii(trim(v.toggle_name)) {
        lemma_normalize_keeps_key(v.toggle_name);
    }
}

/// Badges are drawn exactly when the overlay is on, the screen is open, no
/// dialog covers it, values were captured, and at least one branch value (either
/// one alone) is known.
pub proof fn lemma_draw_when_a_branch_is_known(v: AffinityView)
    ensures
        v.spec_should_draw() <==> (v.enabled && v.step != 0 && !v.dialog_open && v.val_ts != 0
            && (v.ind1 >= 0 || v.ind2 >= 0)),
        forall|t: i32, a: i32, b: i32|
            (v.enabled && v.step != 0 && !v.dialog_open && #[trigger] v.spec_values() == Some(
                (t, a, b),
            ) && (a >= 0 || b >= 0)) ==> v.spec_should_draw(),
        (v.enabled && v.step != 0 && !v.dialog_open && v.val_ts != 0 && v.ind1 < 0 && v.ind2 >= 0)
            ==> v.spec_should_draw(),
        (v.enabled && v.step != 0 && !v.dialog_open && v.val_ts != 0 && v.ind1 >= 0 && v.ind2 < 0)
            ==> v.spec_should_draw(),
{
}

pub open spec fn count_known(x: i32) -> int {
    if x >= 0 {
        1
    } else {
        0
    }
}

/// The badge list holds one badge per known value, each independently of the
/// others: position 0 for the total, 1 and 2 for the branch values, in
/// increasing position, each with its own caption and value; nothing before
/// values are captured.
pub proof fn lemma_badges_one_per_known_value(v: AffinityView)
    ensures
        v.val_ts == 0 ==> v.spec_badges().len() == 0,
        v.val_ts != 0 ==> {
            let items = v.spec_badges();
            &&& items.len() == count_known(v.total) + count_known(v.ind1) + count_known(v.ind2)
            &&& forall|i: int, j: int|
                0 <= i < j < items.len() ==> (#[trigger] items[i]).0 < (#[trigger] items[j]).0
            &&& forall|i: int|
                0 <= i < items.len() ==> {
                    ||| #[trigger] items[i] == (0usize, label_or(v.label_total, total_label_text()), v.total)
                        && v.total >= 0
                    ||| items[i] == (1usize, label_or(v.label_p1, parent1_label_text()), v.ind1)
                        && v.ind1 >= 0
                    ||| items[i] == (2usize, label_or(v.label_p2, parent2_label_text()), v.ind2)
                        && v.ind2 >= 0
                }
            &&& v.total >= 0 ==> exists|i: int|
                0 <= i < items.len() && #[trigger] items[i] == (
                    0usize,
                    label_or(v.label_total, total_label_text()),
                    v.total,
                )
            &&& v.ind1 >= 0 ==> exists|i: int|
                0 <= i < items.len() && #[trigger] items[i] == (
                    1usize,
                    label_or(v.label_p1, parent1_label_text()),
                    v.ind1,
                )
            &&& v.ind2 >= 0 ==> exists|i: int|
                0 <= i < items.len() && #[trigger] items[i] == (
                    2usize,
                    label_or(v.label_p2, parent2_label_text()),
                    v.ind2,
                )
        },
{
    if v.val_ts != 0 {
        let items = v.spec_badges();
        let x0 = (0usize, label_or(v.label_total, total_label_text()), v.total);
        let x1 = (1usize, label_or(v.label_p1, parent1_label_text()), v.ind1);
        let x2 = (2usize, label_or(v.label_p2, parent2_label_text()), v.ind2);
        let a: Seq<(usize, Seq<char>, i32)> = if v.total >= 0 { seq![x0] } else { Seq::empty() };
        let b: Seq<(usize, Seq<char>, i32)> = if v.ind1 >= 0 { seq![x1] } else { Seq::empty() };
        let c: Seq<(usize, Seq<char>, i32)> = if v.ind2 >= 0 { seq![x2] } else { Seq::empty() };
        assert(items == a + b + c);
        let k1 = count_known(v.total);
        let k2 = count_known(v.total) + count_known(v.ind1);
        assert forall|i: int| 0 <= i < items.len() implies {
            &&& (i < k1 ==> items[i] == x0)
            &&& (k1 <= i < k2 ==> items[i] == x1)
            &&& (k2 <= i ==> items[i] == x2)
        } by {
            if i < k1 {
                assert(items[i] == a[i]);
            } else if i < k2 {
                assert(items[i] == (a + b)[i]);
                assert((a + b)[i] == b[i - k1]);
            } else {
                assert(items[i] == c[i - k2]);
            }
        }
        if v.total >= 0 {
            assert(items[0] == x0);
        }
        if v.ind1 >= 0 {
            assert(items[k1] == x1);
        }
        if v.ind2 >= 0 {
            assert(items[k2] == x2);
        }
    }
}

/// On Legacy Select, a call other than the one shown, with a total within
/// 0..=800 and at least one parent (either one alone), asks for the branch
/// values and leaves the state as it was; no other call asks for them.
pub proof fn lemma_calc_asks_for_any_parent(
    v: AffinityView,
    trainee: i32,
    p1: usize,
    p2: usize,
    total: i32,
)
    ensures
        (v.step != 0 && !v.values_cached(trainee, p1, p2, total) && 0 <= total <= 800 && ((p1 != 0
            && p1 != usize::MAX) || (p2 != 0 && p2 != usize::MAX))) ==> {
            &&& v.calc_needs_branches(trainee, p1, p2, total)
            &&& v.calc_begun(trainee, p1, p2, total) == v
        },
        v.calc_needs_branches(trainee, p1, p2, total) ==> (v.step != 0 && 0 <= total <= 800 && ((p1
            != 0 && p1 != usize::MAX) || (p2 != 0 && p2 != usize::MAX))),
        (v.step != 0 && !v.values_cached(trainee, p1, p2, total) && 0 <= total <= 800 && (p1 == 0
            || p1 == usize::MAX) && p2 != 0 && p2 != usize::MAX) ==> v.calc_needs_branches(
            trainee,
            p1,
            p2,
            total,
        ),
{
}

/// After the defaults are loaded, with or without a settings file, the stored
/// key code is the code of the stored hotkey name; without a file the hotkey
/// is `P` with code 0x50.
pub proof fn lemma_defaults_key_code_matches_name(
    v: AffinityView,
    enabled: bool,
    toggle_key: Seq<char>,
    label_total: Seq<char>,
    label_p1: Seq<char>,
    label_p2: Seq<char>,
)
    ensures
        v.with_defaults().toggle_name == seq!['P'],
        v.with_defaults().toggle_vk == 0x50,
        v.with_defaults().toggle_vk == vk_or_zero(spec_parse_vk(v.with_defaults().toggle_name)),
        ({
            let w = v.with_defaults().with_settings(
                enabled,
                toggle_key,
                label_total,
                label_p1,
                label_p2,
            );
            w.toggle_vk == vk_or_zero(spec_parse_vk(w.toggle_name))
        }),
{
    let n = seq!['P'];
    lemma_trim_noop(n);
    assert(ascii_upper_seq(n) =~= n);
    assert(!is_off_name(n));
    assert(function_key_number(n) is None);
    assert(is_single_key(n));
}

} // verus!
