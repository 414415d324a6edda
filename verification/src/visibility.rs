//! Which character overlay is shown: at most one at a time, with the slot
//! shown last as the anchor for cycling through the enabled slots.

use crate::error::CoreError;
use crate::slots::{
    find_slot, is_valid_character_id, primary_id, slot_ids, slot_position, slot_views,
    CharacterSlotConfig, SlotView,
};
use crate::text::{blank, is_blank, same_text, text_views};
use vstd::prelude::*;
use vstd::string::*;

verus! {

/// A notification for the display layer.
#[derive(Debug)]
pub enum OverlayEvent {
    /// The overlay of a character was shown or hidden.
    VisibilityChanged { character_id: String, visible: bool },
    /// Another character became the active one.
    ActiveChanged { character_id: String },
}

/// A notification as a value.
pub ghost enum OverlayEventView {
    VisibilityChanged { character_id: Seq<char>, visible: bool },
    ActiveChanged { character_id: Seq<char> },
}

impl View for OverlayEvent {
    type V = OverlayEventView;

    open spec fn view(&self) -> OverlayEventView {
        match self {
            OverlayEvent::VisibilityChanged { character_id, visible } => {
                OverlayEventView::VisibilityChanged { character_id: character_id@, visible: *visible }
            },
            OverlayEvent::ActiveChanged { character_id } => OverlayEventView::ActiveChanged {
                character_id: character_id@,
            },
        }
    }
}

/// The views of a list of events.
pub open spec fn event_views(events: Seq<OverlayEvent>) -> Seq<OverlayEventView> {
    Seq::new(events.len(), |i: int| events[i]@)
}

/// The visibility of the overlays as a value: the characters shown and the
/// active character.
pub ghost struct VisibilityView {
    pub visible: Set<Seq<char>>,
    pub active: Seq<char>,
}

/// The state at process start: nothing shown, the primary character active.
pub open spec fn initial_visibility() -> VisibilityView {
    VisibilityView { visible: Set::empty(), active: primary_id() }
}

/// Showing a character hides every other one and makes it the active one.
pub open spec fn shown(v: VisibilityView, character_id: Seq<char>) -> VisibilityView {
    VisibilityView { visible: set![character_id], active: character_id }
}

/// Hiding a character leaves the others and the active character as they are.
pub open spec fn hidden(v: VisibilityView, character_id: Seq<char>) -> VisibilityView {
    VisibilityView { visible: v.visible.remove(character_id), active: v.active }
}

/// At most one character is shown.
pub open spec fn single_visible(v: VisibilityView) -> bool {
    v.visible.finite() && v.visible.len() <= 1
}

/// The state after showing each character of `ids` in turn.
pub open spec fn shown_in_turn(v: VisibilityView, ids: Seq<Seq<char>>) -> VisibilityView
    decreases ids.len(),
{
    if ids.len() == 0 {
        v
    } else {
        shown(shown_in_turn(v, ids.drop_last()), ids.last())
    }
}

/// After any sequence of shows, from any state in which at most one
/// character is shown, at most one character is shown.
pub proof fn lemma_shows_keep_single_visible(v: VisibilityView, ids: Seq<Seq<char>>)
    requires
        single_visible(v),
    ensures
        single_visible(shown_in_turn(v, ids)),
    decreases ids.len(),
{
    if ids.len() > 0 {
        lemma_shows_keep_single_visible(v, ids.drop_last());
    }
}

/// Hiding a character keeps at most one character shown.
pub proof fn lemma_hide_keeps_single_visible(v: VisibilityView, character_id: Seq<char>)
    requires
        single_visible(v),
    ensures
        single_visible(hidden(v, character_id)),
{
    if v.visible.contains(character_id) {
        assert(v.visible.remove(character_id).len() == v.visible.len() - 1);
    } else {
        assert(v.visible.remove(character_id) =~= v.visible);
    }
}

/// A hide for every identifier of `ids` that is shown and is not
/// `character_id`, in order.
pub open spec fn hide_events(
    ids: Seq<Seq<char>>,
    visible: Set<Seq<char>>,
    character_id: Seq<char>,
) -> Seq<OverlayEventView>
    decreases ids.len(),
{
    if ids.len() == 0 {
        Seq::empty()
    } else if ids.last() == character_id || !visible.contains(ids.last()) {
        hide_events(ids.drop_last(), visible, character_id)
    } else {
        hide_events(ids.drop_last(), visible, character_id).push(
            OverlayEventView::VisibilityChanged { character_id: ids.last(), visible: false },
        )
    }
}

/// What is emitted when a character is shown: a hide for every other slot
/// that is shown at that moment, in fixed order, the change of the active
/// character, then the show.
pub open spec fn show_events(v: VisibilityView, character_id: Seq<char>) -> Seq<OverlayEventView> {
    hide_events(slot_ids(), v.visible, character_id) + seq![
        OverlayEventView::ActiveChanged { character_id: character_id },
        OverlayEventView::VisibilityChanged { character_id: character_id, visible: true },
    ]
}

/// The visibility of the character overlays.
#[derive(Debug)]
pub struct VisibilityState {
    visible: Vec<String>,
    active: String,
}

impl View for VisibilityState {
    type V = VisibilityView;

    closed spec fn view(&self) -> VisibilityView {
        VisibilityView {
            visible: if self.visible@.len() == 0 {
                Set::empty()
            } else {
                set![self.visible@[0]@]
            },
            active: self.active@,
        }
    }
}

impl VisibilityState {
    /// At most one character is shown, and only fixed slots are shown or
    /// active.
    #[verifier::type_invariant]
    spec fn well_formed(self) -> bool {
        &&& self.visible@.len() <= 1
        &&& slot_ids().contains(self.active@)
        &&& forall|i: int| 0 <= i < self.visible@.len() ==> slot_ids().contains(self.visible@[i]@)
    }

    /// The state at process start: nothing shown, the primary character active.
    pub fn new() -> (r: VisibilityState)
        ensures
            r@ == initial_visibility(),
    {
        proof {
            assert(slot_ids()[0] == primary_id());
        }
        VisibilityState { visible: Vec::new(), active: String::from_str("character_1") }
    }

    /// Whether the overlay of the character is shown.
    pub fn get_overlay_visible_for_character(&self, character_id: &str) -> (r: bool)
        ensures
            r == self@.visible.contains(character_id@),
    {
        proof {
            use_type_invariant(self);
        }
        self.visible.len() == 1 && same_text(self.visible[0].as_str(), character_id)
    }

    /// How many overlays are shown: none or one, in every state.  The
    /// characters shown and the active character are among the fixed slots.
    pub fn visible_count(&self) -> (r: usize)
        ensures
            r == self@.visible.len(),
            r <= 1,
            single_visible(self@),
            slot_ids().contains(self@.active),
            forall|id: Seq<char>| self@.visible.contains(id) ==> slot_ids().contains(id),
    {
        proof {
            use_type_invariant(self);
        }
        self.visible.len()
    }

    /// The active character.
    pub fn get_active_character_id(&self) -> (r: String)
        ensures
            r@ == self@.active,
    {
        self.active.clone()
    }

    /// Makes a character the active one without showing it.  An unknown
    /// identifier is refused and changes nothing.
    pub fn set_active_character_id(&mut self, character_id: &str) -> (r: Result<
        OverlayEvent,
        CoreError,
    >)
        ensures
            match r {
                Ok(e) => slot_ids().contains(character_id@) && final(self)@ == (VisibilityView {
                    active: character_id@,
                    ..old(self)@
                }) && e@ == (OverlayEventView::ActiveChanged { character_id: character_id@ }),
                Err(e) => !slot_ids().contains(character_id@) && e == CoreError::InvalidSlot
                    && final(self)@ == old(self)@,
            },
    {
        proof {
            use_type_invariant(&*self);
        }
        if !is_valid_character_id(character_id) {
            return Err(CoreError::InvalidSlot);
        }
        self.active = String::from_str(character_id);
        Ok(OverlayEvent::ActiveChanged { character_id: String::from_str(character_id) })
    }

    /// Shows a character: every other overlay is hidden first, then this one
    /// is shown and becomes the active one.  Gives the notifications to
    /// emit, in order.  An unknown identifier is refused and changes nothing.
    pub fn show_overlay_for_character(&mut self, character_id: &str) -> (r: Result<
        Vec<OverlayEvent>,
        CoreError,
    >)
        ensures
            match r {
                Ok(events) => slot_ids().contains(character_id@) && final(self)@ == shown(
                    old(self)@,
                    character_id@,
                ) && event_views(events@) == show_events(old(self)@, character_id@),
                Err(e) => !slot_ids().contains(character_id@) && e == CoreError::InvalidSlot
                    && final(self)@ == old(self)@,
            },
            single_visible(final(self)@),
    {
        proof {
            use_type_invariant(&*self);
        }
        if !is_valid_character_id(character_id) {
            return Err(CoreError::InvalidSlot);
        }
        let mut events: Vec<OverlayEvent> = Vec::new();
        let ghost shown_now = self@.visible;
        let ghost ids = slot_ids();
        let ghost two = ids.drop_last();
        let ghost one = two.drop_last();
        proof {
            assert(one.drop_last() =~= Seq::<Seq<char>>::empty());
            assert(one.last() == "character_1"@ && two.last() == "character_2"@ && ids.last()
                == "character_3"@);
            assert(event_views(events@) =~= hide_events(one.drop_last(), shown_now, character_id@));
        }
        let first = self.get_overlay_visible_for_character("character_1");
        push_hide(&mut events, "character_1", first, character_id);
        assert(event_views(events@) == hide_events(one, shown_now, character_id@));
        let second = self.get_overlay_visible_for_character("character_2");
        push_hide(&mut events, "character_2", second, character_id);
        assert(event_views(events@) == hide_events(two, shown_now, character_id@));
        let third = self.get_overlay_visible_for_character("character_3");
        push_hide(&mut events, "character_3", third, character_id);
        assert(event_views(events@) == hide_events(ids, shown_now, character_id@));
        events.push(OverlayEvent::ActiveChanged { character_id: String::from_str(character_id) });
        events.push(
            OverlayEvent::VisibilityChanged {
                character_id: String::from_str(character_id),
                visible: true,
            },
        );
        let mut visible: Vec<String> = Vec::new();
        visible.push(String::from_str(character_id));
        self.visible = visible;
        self.active = String::from_str(character_id);
        proof {
            assert(event_views(events@) =~= show_events(old(self)@, character_id@));
        }
        Ok(events)
    }

    /// Hides a character on request.  An unknown identifier is refused and
    /// changes nothing.
    pub fn hide_overlay_for_character_cmd(&mut self, character_id: &str) -> (r: Result<
        OverlayEvent,
        CoreError,
    >)
        ensures
            match r {
                Ok(e) => slot_ids().contains(character_id@) && final(self)@ == hidden(
                    old(self)@,
                    character_id@,
                ) && e@ == (OverlayEventView::VisibilityChanged {
                    character_id: character_id@,
                    visible: false,
                }),
                Err(e) => !slot_ids().contains(character_id@) && e == CoreError::InvalidSlot
                    && final(self)@ == old(self)@,
            },
            single_visible(final(self)@),
    {
        if !is_valid_character_id(character_id) {
            proof {
                use_type_invariant(&*self);
            }
            return Err(CoreError::InvalidSlot);
        }
        Ok(self.hide_overlay_for_character(character_id))
    }

    /// Hides a character, whether it was shown or not.  The active character
    /// stays.  Gives the notification to emit.
    pub fn hide_overlay_for_character(&mut self, character_id: &str) -> (r: OverlayEvent)
        ensures
            final(self)@ == hidden(old(self)@, character_id@),
            r@ == (OverlayEventView::VisibilityChanged {
                character_id: character_id@,
                visible: false,
            }),
            single_visible(final(self)@),
    {
        proof {
            use_type_invariant(&*self);
        }
        if self.visible.len() == 1 && same_text(self.visible[0].as_str(), character_id) {
            self.visible = Vec::new();
            proof {
                assert(set![character_id@].remove(character_id@) =~= Set::empty());
            }
        } else {
            proof {
                assert(old(self)@.visible.remove(character_id@) =~= old(self)@.visible);
            }
        }
        OverlayEvent::VisibilityChanged {
            character_id: String::from_str(character_id),
            visible: false,
        }
    }
}

/// A slot takes part in cycling when it is enabled and has a bundle URL.
pub open spec fn takes_part(s: SlotView) -> bool {
    s.enabled && !blank(s.model_url)
}

/// Whether the slot with the identifier takes part in cycling: the list
/// holds a record for it, and that record is enabled and has a bundle URL.
pub open spec fn slot_takes_part(slots: Seq<SlotView>, slot_id: Seq<char>) -> bool {
    find_slot(slots, slot_id) matches Some(s) && takes_part(s)
}

/// Those of `ids` whose slots take part in cycling, in the order of `ids`.
pub open spec fn enabled_among(slots: Seq<SlotView>, ids: Seq<Seq<char>>) -> Seq<Seq<char>>
    decreases ids.len(),
{
    if ids.len() == 0 {
        Seq::empty()
    } else if slot_takes_part(slots, ids.last()) {
        enabled_among(slots, ids.drop_last()).push(ids.last())
    } else {
        enabled_among(slots, ids.drop_last())
    }
}

/// The identifiers of the slots that take part in cycling, in the fixed
/// order of the identifiers, whatever the order of the list.
pub open spec fn enabled_ids(slots: Seq<SlotView>) -> Seq<Seq<char>> {
    enabled_among(slots, slot_ids())
}

/// The first index at which `id` stands in `ids`, if it stands there.
pub open spec fn first_index(ids: Seq<Seq<char>>, id: Seq<char>) -> Option<int>
    decreases ids.len(),
{
    if ids.len() == 0 {
        None
    } else if ids[0] == id {
        Some(0)
    } else {
        match first_index(ids.drop_first(), id) {
            Some(i) => Some(i + 1),
            None => None,
        }
    }
}

/// The character that a cycle moves to: the one after the active character
/// in the enabled list, wrapping around; the list's second entry, or its
/// only one, where the active character is not in the list.  There is none
/// where no slot is enabled.
pub open spec fn cycle_target(enabled: Seq<Seq<char>>, active: Seq<char>) -> Option<Seq<char>> {
    if enabled.len() == 0 {
        None
    } else {
        let anchor = match first_index(enabled, active) {
            Some(i) => i,
            None => 0,
        };
        Some(enabled[(anchor + 1) % (enabled.len() as int)])
    }
}

/// `first_index` is the least index that holds `id`.
pub proof fn lemma_first_index(ids: Seq<Seq<char>>, id: Seq<char>)
    ensures
        match first_index(ids, id) {
            Some(i) => 0 <= i < ids.len() && ids[i] == id && forall|j: int|
                0 <= j < i ==> ids[j] != id,
            None => forall|j: int| 0 <= j < ids.len() ==> ids[j] != id,
        },
    decreases ids.len(),
{
    if ids.len() > 0 && ids[0] != id {
        let rest = ids.drop_first();
        lemma_first_index(rest, id);
        match first_index(rest, id) {
            Some(i) => {
                assert(rest[i] == ids[i + 1]);
                assert forall|j: int| 0 <= j < i + 1 implies ids[j] != id by {
                    if j > 0 {
                        assert(rest[j - 1] == ids[j]);
                    }
                }
            },
            None => {
                assert forall|j: int| 0 <= j < ids.len() implies ids[j] != id by {
                    if j > 0 {
                        assert(rest[j - 1] == ids[j]);
                    }
                }
            },
        }
    }
}

/// Cycling moves from each enabled character to the next one and from the
/// last one back to the first.
pub proof fn lemma_cycle_wraps(enabled: Seq<Seq<char>>, i: int)
    requires
        enabled.no_duplicates(),
        0 <= i < enabled.len(),
    ensures
        i + 1 < enabled.len() ==> cycle_target(enabled, enabled[i]) == Some(enabled[i + 1]),
        i + 1 == enabled.len() ==> cycle_target(enabled, enabled[i]) == Some(enabled[0]),
{
    lemma_first_index(enabled, enabled[i]);
    let n = enabled.len() as int;
    match first_index(enabled, enabled[i]) {
        Some(k) => {
            assert(k == i);
        },
        None => {
            assert(enabled[i] != enabled[i]);
        },
    }
    if i + 1 < n {
        assert((i + 1) % n == i + 1) by (nonlinear_arith)
            requires
                0 <= i + 1 < n,
        ;
    } else {
        assert((i + 1) % n == 0) by (nonlinear_arith)
            requires
                i + 1 == n,
                n > 0,
        ;
    }
}

/// Adds the identifier where its slot takes part in cycling.
fn push_if_enabled(r: &mut Vec<String>, slots: &Vec<CharacterSlotConfig>, slot_id: &str)
    ensures
        text_views(final(r)@) == if slot_takes_part(slot_views(slots@), slot_id@) {
            text_views(old(r)@).push(slot_id@)
        } else {
            text_views(old(r)@)
        },
{
    if let Some(i) = slot_position(slots, slot_id) {
        if slots[i].enabled && !is_blank(slots[i].model_url.as_str()) {
            r.push(String::from_str(slot_id));
            proof {
                assert(text_views(r@) =~= text_views(old(r)@).push(slot_id@));
            }
        }
    }
}

/// The identifiers of the slots that take part in cycling, in the fixed
/// order of the identifiers.
pub fn enabled_characters(slots: &Vec<CharacterSlotConfig>) -> (r: Vec<String>)
    ensures
        text_views(r@) == enabled_ids(slot_views(slots@)),
{
    let mut r: Vec<String> = Vec::new();
    let ghost views = slot_views(slots@);
    let ghost ids = slot_ids();
    let ghost two = ids.drop_last();
    let ghost one = two.drop_last();
    proof {
        assert(one.drop_last() =~= Seq::<Seq<char>>::empty());
        assert(one.last() == "character_1"@ && two.last() == "character_2"@ && ids.last()
            == "character_3"@);
        assert(text_views(r@) =~= enabled_among(views, one.drop_last()));
    }
    push_if_enabled(&mut r, slots, "character_1");
    assert(text_views(r@) == enabled_among(views, one));
    push_if_enabled(&mut r, slots, "character_2");
    assert(text_views(r@) == enabled_among(views, two));
    push_if_enabled(&mut r, slots, "character_3");
    assert(text_views(r@) == enabled_among(views, ids));
    r
}

/// The position of the first text of `ids` that equals `id`.
fn position_of(ids: &Vec<String>, id: &str) -> (r: Option<usize>)
    ensures
        match r {
            Some(i) => first_index(text_views(ids@), id@) == Some(i as int) && i < ids@.len(),
            None => first_index(text_views(ids@), id@) is None,
        },
{
    let n = ids.len();
    let ghost views = text_views(ids@);
    let mut i: usize = n;
    assert(views.subrange(n as int, n as int) =~= Seq::<Seq<char>>::empty());
    let mut found: Option<usize> = None;
    while i > 0
        invariant
            n == ids@.len(),
            views == text_views(ids@),
            i <= n,
            match found {
                Some(k) => i <= k < n && first_index(views.subrange(i as int, n as int), id@)
                    == Some(k - i),
                None => first_index(views.subrange(i as int, n as int), id@) is None,
            },
        decreases i,
    {
        let ghost tail = views.subrange(i as int, n as int);
        i -= 1;
        let ghost longer = views.subrange(i as int, n as int);
        assert(longer[0] == ids@[i as int]@);
        assert(longer.drop_first() =~= tail);
        if same_text(ids[i].as_str(), id) {
            found = Some(i);
        }
    }
    assert(views.subrange(0, n as int) =~= views);
    found
}

/// The character that a cycle moves to from `active`, among the enabled
/// characters in their order.  There is none where the list is empty.
pub fn next_character(enabled: &Vec<String>, active: &str) -> (r: Result<String, CoreError>)
    ensures
        match r {
            Ok(id) => cycle_target(text_views(enabled@), active@) == Some(id@),
            Err(e) => e == CoreError::NoEnabledSlots && enabled@.len() == 0,
        },
{
    let n = enabled.len();
    if n == 0 {
        return Err(CoreError::NoEnabledSlots);
    }
    let anchor = match position_of(enabled, active) {
        Some(i) => i,
        None => 0,
    };
    let next = if anchor + 1 == n {
        0
    } else {
        anchor + 1
    };
    assert(next == (anchor + 1) % (n as int)) by {
        if anchor + 1 == n {
            assert((anchor + 1) % (n as int) == 0) by (nonlinear_arith)
                requires
                    anchor + 1 == n,
                    n > 0,
            ;
        } else {
            assert((anchor + 1) % (n as int) == anchor + 1) by (nonlinear_arith)
                requires
                    0 <= anchor + 1 < n,
            ;
        }
    }
    Ok(enabled[next].clone())
}

/// What a cycle reports once the next character has the focus.
#[derive(Debug)]
pub struct SpawnResult {
    pub character_id: String,
    pub action: String,
    pub visible_count: usize,
}

impl VisibilityState {
    /// The character that the next cycle moves to, given the loaded slots.
    pub fn next_character_to_show(&self, slots: &Vec<CharacterSlotConfig>) -> (r: Result<
        String,
        CoreError,
    >)
        ensures
            match r {
                Ok(id) => cycle_target(enabled_ids(slot_views(slots@)), self@.active) == Some(id@),
                Err(e) => e == CoreError::NoEnabledSlots && enabled_ids(slot_views(slots@)).len()
                    == 0,
            },
    {
        let enabled = enabled_characters(slots);
        next_character(&enabled, self.active.as_str())
    }

    /// Completes a cycle once the target's assets are ready: shows the
    /// target and reports it as focused, with one overlay shown.
    pub fn spawn_or_focus_next_character(&mut self, target: &str) -> (r: Result<
        (SpawnResult, Vec<OverlayEvent>),
        CoreError,
    >)
        ensures
            match r {
                Ok((result, events)) => slot_ids().contains(target@) && final(self)@ == shown(
                    old(self)@,
                    target@,
                ) && event_views(events@) == show_events(old(self)@, target@) && result.character_id@
                    == target@ && result.action@ == "focused"@ && result.visible_count == 1,
                Err(e) => !slot_ids().contains(target@) && e == CoreError::InvalidSlot
                    && final(self)@ == old(self)@,
            },
            single_visible(final(self)@),
    {
        match self.show_overlay_for_character(target) {
            Ok(events) => Ok(
                (
                    SpawnResult {
                        character_id: String::from_str(target),
                        action: String::from_str("focused"),
                        visible_count: 1,
                    },
                    events,
                ),
            ),
            Err(e) => Err(e),
        }
    }

    /// Shows the primary character if it is hidden and hides it if it is
    /// shown.  Says whether it is shown afterwards.
    pub fn toggle_overlay(&mut self) -> (r: (bool, Vec<OverlayEvent>))
        ensures
            r.0 == !old(self)@.visible.contains(primary_id()),
            r.0 ==> final(self)@ == shown(old(self)@, primary_id()) && event_views(r.1@)
                == show_events(old(self)@, primary_id()),
            !r.0 ==> final(self)@ == hidden(old(self)@, primary_id()) && event_views(r.1@)
                == seq![
                OverlayEventView::VisibilityChanged { character_id: primary_id(), visible: false },
            ],
            single_visible(final(self)@),
    {
        if self.get_overlay_visible_for_character("character_1") {
            let event = self.hide_overlay_for_character("character_1");
            let mut events: Vec<OverlayEvent> = Vec::new();
            events.push(event);
            proof {
                assert(event_views(events@) =~= seq![
                    OverlayEventView::VisibilityChanged {
                        character_id: primary_id(),
                        visible: false,
                    },
                ]);
            }
            (false, events)
        } else {
            proof {
                assert(slot_ids()[0] == primary_id());
            }
            match self.show_overlay_for_character("character_1") {
                Ok(events) => (true, events),
                Err(_) => (true, Vec::new()),
            }
        }
    }
}

/// Adds a hide for `other` where it is shown and is not the character about
/// to be shown.
fn push_hide(events: &mut Vec<OverlayEvent>, other: &str, shown: bool, character_id: &str)
    ensures
        event_views(final(events)@) == if other@ == character_id@ || !shown {
            event_views(old(events)@)
        } else {
            event_views(old(events)@).push(
                OverlayEventView::VisibilityChanged { character_id: other@, visible: false },
            )
        },
{
    if shown && !same_text(other, character_id) {
        events.push(
            OverlayEvent::VisibilityChanged { character_id: String::from_str(other), visible: false },
        );
        proof {
            assert(event_views(events@) =~= event_views(old(events)@).push(
                OverlayEventView::VisibilityChanged { character_id: other@, visible: false },
            ));
        }
    }
}

} // verus!
