//! The provisioning orchestrator: what it takes to make a slot's assets
//! ready, decided step by step from what the outside world reports.

use crate::error::{CoreError, ErrorView};
use crate::layout::{
    detect_error, detect_model_structure, detected, trees, DetectedView, Entry, Tree,
};
use crate::slots::{
    adopt, default_model_url, find_slot, is_valid_character_id, lemma_find_slot_first, primary_id,
    slot_ids, slot_position, slot_views, with_url_default, CharacterSlotConfig, ModelConfig,
    ModelConfigView, SlotView,
};
use crate::store::{
    complete, lemma_loaded_stable, lemma_merge_complete, lemma_slot_ids_distinct,
    lemma_with_record_complete, loaded, model_of_record, recorded_model,
    save_model_config_for_character, slots_after_adopting,
};
use crate::text::{blank, is_blank, opt_view, same_text, text_views};
use vstd::prelude::*;
use vstd::string::*;

verus! {

/// The bundle to fetch for a slot: its own URL, or for the primary slot
/// without one the bundle that ships with the application.
pub open spec fn resolved_url(s: SlotView) -> Option<Seq<char>> {
    if !blank(s.model_url) {
        Some(s.model_url)
    } else if s.slot_id == primary_id() {
        Some(default_model_url())
    } else {
        None
    }
}

/// What a provisioning run starts from: the bundle to fetch if need be, and
/// the model that the slot records, to be looked for on disk first.
#[derive(Debug)]
pub struct ProvisionPlan {
    pub url: String,
    pub recorded: Option<ModelConfig>,
}

/// A plan as a value.
pub ghost struct PlanView {
    pub url: Seq<char>,
    pub recorded: Option<ModelConfigView>,
}

impl View for ProvisionPlan {
    type V = PlanView;

    open spec fn view(&self) -> PlanView {
        PlanView {
            url: self.url@,
            recorded: match self.recorded {
                Some(c) => Some(c@),
                None => None,
            },
        }
    }
}

/// The plan for a slot, or why there is none: the identifier is unknown,
/// the list holds no record for it, or a slot other than the primary one
/// has no bundle URL.
pub open spec fn plan_for(slots: Seq<SlotView>, character_id: Seq<char>) -> Result<
    PlanView,
    ErrorView,
> {
    if !slot_ids().contains(character_id) {
        Err(ErrorView::InvalidSlot)
    } else {
        match find_slot(slots, character_id) {
            None => Err(ErrorView::SlotNotFound),
            Some(s) => match resolved_url(s) {
                None => Err(ErrorView::MissingUrl(character_id)),
                Some(url) => Ok(
                    PlanView {
                        url: url,
                        recorded: match recorded_model(s) {
                            Some(c) => Some(ModelConfigView { url: url, ..c }),
                            None => None,
                        },
                    },
                ),
            },
        }
    }
}

/// Plans the provisioning of a slot from the loaded slot list.
pub fn plan_provisioning(slots: &Vec<CharacterSlotConfig>, character_id: &str) -> (r: Result<
    ProvisionPlan,
    CoreError,
>)
    ensures
        match r {
            Ok(p) => plan_for(slot_views(slots@), character_id@) == Ok::<PlanView, ErrorView>(p@),
            Err(e) => plan_for(slot_views(slots@), character_id@) == Err::<PlanView, ErrorView>(
                e@,
            ),
        },
{
    if !is_valid_character_id(character_id) {
        return Err(CoreError::InvalidSlot);
    }
    let at = match slot_position(slots, character_id) {
        Some(i) => i,
        None => {
            return Err(CoreError::SlotNotFound);
        },
    };
    let slot = &slots[at];
    let url = if !is_blank(slot.model_url.as_str()) {
        slot.model_url.clone()
    } else if same_text(character_id, "character_1") {
        String::from_str("https://storage.googleapis.com/oto_bucket/live2d/Hiyori1.zip")
    } else {
        return Err(CoreError::MissingUrl(String::from_str(character_id)));
    };
    let recorded = match model_of_record(slot) {
        Some(c) => Some(
            ModelConfig {
                url: url.clone(),
                folder: c.folder,
                model_file: c.model_file,
                texture_folder: c.texture_folder,
            },
        ),
        None => None,
    };
    Ok(ProvisionPlan { url: url, recorded: recorded })
}

/// The model that a normalized bundle gives a slot.
pub open spec fn model_from(url: Seq<char>, d: DetectedView) -> ModelConfigView {
    ModelConfigView {
        url: url,
        folder: d.folder,
        model_file: d.model_file,
        texture_folder: d.texture_folder,
    }
}

/// How far a provisioning run has come.
#[derive(Debug)]
pub enum ProvisionState {
    /// Nothing was asked for yet.
    Idle,
    /// The slot list is being loaded.
    AwaitingSlots { character_id: String },
    /// The recorded model is being looked for on disk.
    AwaitingProbe { character_id: String, slots: Vec<CharacterSlotConfig>, plan: ProvisionPlan },
    /// The bundle is being fetched and unpacked into the emptied asset root.
    AwaitingBundle { character_id: String, slots: Vec<CharacterSlotConfig>, url: String },
    /// The normalized layout and the slot list are being written.
    AwaitingPersist { config: ModelConfig },
    /// The run is over.
    Finished,
}

/// What the outside world reports to a provisioning run.
#[derive(Debug)]
pub enum ProvisionEvent {
    /// A slot is to be made ready.
    Begin(String),
    /// The slot list, as a load returned it.
    SlotsLoaded(Vec<CharacterSlotConfig>),
    /// Whether the recorded descriptor is on disk.
    Probed(bool),
    /// The asset root and its listing after the bundle was unpacked into it.
    Unpacked { root: String, listing: Vec<Entry> },
    /// The layout and the slot list were written.
    Persisted,
    /// The step that was asked for failed.
    Failed(CoreError),
}

/// What a provisioning run asks the outside world to do next.
#[derive(Debug)]
pub enum ProvisionAction {
    /// Load the slot list and report it.
    LoadSlots,
    /// Report whether `model_file` exists in `folder` below the asset root.
    Probe { folder: String, model_file: String },
    /// Empty the asset root, fetch the bundle, unpack it there and report
    /// the listing of the root.
    FetchBundle { url: String },
    /// Where `gather_into` names a folder, create it and move the entries
    /// named by `moved` into it; then write the slot list.  No other file
    /// is written.
    Persist { gather_into: Option<String>, moved: Vec<String>, slots: Vec<CharacterSlotConfig> },
    /// The run is over, with the model that is ready or the failure.
    Finish(Result<ModelConfig, CoreError>),
    /// The event does not belong to the state; nothing changes.
    Ignore,
}

/// A state of a run as a value.
pub ghost enum StateView {
    Idle,
    AwaitingSlots { character_id: Seq<char> },
    AwaitingProbe { character_id: Seq<char>, slots: Seq<SlotView>, plan: PlanView },
    AwaitingBundle { character_id: Seq<char>, slots: Seq<SlotView>, url: Seq<char> },
    AwaitingPersist { config: ModelConfigView },
    Finished,
}

/// An event as a value.
pub ghost enum EventView {
    Begin(Seq<char>),
    SlotsLoaded(Seq<SlotView>),
    Probed(bool),
    Unpacked { root: Seq<char>, listing: Seq<Tree> },
    Persisted,
    Failed(ErrorView),
}

/// An action as a value.
pub ghost enum ActionView {
    LoadSlots,
    Probe { folder: Seq<char>, model_file: Seq<char> },
    FetchBundle { url: Seq<char> },
    Persist { gather_into: Option<Seq<char>>, moved: Seq<Seq<char>>, slots: Seq<SlotView> },
    Finish(Result<ModelConfigView, ErrorView>),
    Ignore,
}

impl View for ProvisionState {
    type V = StateView;

    open spec fn view(&self) -> StateView {
        match self {
            ProvisionState::Idle => StateView::Idle,
            ProvisionState::AwaitingSlots { character_id } => StateView::AwaitingSlots {
                character_id: character_id@,
            },
            ProvisionState::AwaitingProbe { character_id, slots, plan } => StateView::AwaitingProbe {
                character_id: character_id@,
                slots: slot_views(slots@),
                plan: plan@,
            },
            ProvisionState::AwaitingBundle { character_id, slots, url } => StateView::AwaitingBundle {
                character_id: character_id@,
                slots: slot_views(slots@),
                url: url@,
            },
            ProvisionState::AwaitingPersist { config } => StateView::AwaitingPersist {
                config: config@,
            },
            ProvisionState::Finished => StateView::Finished,
        }
    }
}

impl View for ProvisionEvent {
    type V = EventView;

    open spec fn view(&self) -> EventView {
        match self {
            ProvisionEvent::Begin(id) => EventView::Begin(id@),
            ProvisionEvent::SlotsLoaded(slots) => EventView::SlotsLoaded(slot_views(slots@)),
            ProvisionEvent::Probed(found) => EventView::Probed(*found),
            ProvisionEvent::Unpacked { root, listing } => EventView::Unpacked {
                root: root@,
                listing: trees(listing@),
            },
            ProvisionEvent::Persisted => EventView::Persisted,
            ProvisionEvent::Failed(e) => EventView::Failed(e@),
        }
    }
}

impl View for ProvisionAction {
    type V = ActionView;

    open spec fn view(&self) -> ActionView {
        match self {
            ProvisionAction::LoadSlots => ActionView::LoadSlots,
            ProvisionAction::Probe { folder, model_file } => ActionView::Probe {
                folder: folder@,
                model_file: model_file@,
            },
            ProvisionAction::FetchBundle { url } => ActionView::FetchBundle { url: url@ },
            ProvisionAction::Persist { gather_into, moved, slots } => ActionView::Persist {
                gather_into: opt_view(*gather_into),
                moved: text_views(moved@),
                slots: slot_views(slots@),
            },
            ProvisionAction::Finish(outcome) => ActionView::Finish(
                match outcome {
                    Ok(c) => Ok(c@),
                    Err(e) => Err(e@),
                },
            ),
            ProvisionAction::Ignore => ActionView::Ignore,
        }
    }
}

/// The step that follows once the slot list is known.
pub open spec fn after_slots(character_id: Seq<char>, slots: Seq<SlotView>) -> (
    StateView,
    ActionView,
) {
    match plan_for(slots, character_id) {
        Err(e) => (StateView::Finished, ActionView::Finish(Err(e))),
        Ok(plan) => match plan.recorded {
            Some(c) => (
                StateView::AwaitingProbe { character_id: character_id, slots: slots, plan: plan },
                ActionView::Probe { folder: c.folder, model_file: c.model_file },
            ),
            None => (
                StateView::AwaitingBundle {
                    character_id: character_id,
                    slots: slots,
                    url: plan.url,
                },
                ActionView::FetchBundle { url: plan.url },
            ),
        },
    }
}

/// The step that follows once the bundle is unpacked: the layout is
/// detected, and the slot adopts the model in the list to write.  A bundle
/// without a model ends the run and nothing is written.
pub open spec fn after_unpacking(
    character_id: Seq<char>,
    slots: Seq<SlotView>,
    url: Seq<char>,
    root: Seq<char>,
    listing: Seq<Tree>,
) -> (StateView, ActionView) {
    match detected(listing) {
        None => (StateView::Finished, ActionView::Finish(Err(detect_error(root, listing)))),
        Some(d) => {
            let config = model_from(url, d);
            (
                StateView::AwaitingPersist { config: config },
                ActionView::Persist {
                    gather_into: if d.flat && d.folder.len() > 0 {
                        Some(d.folder)
                    } else {
                        None
                    },
                    moved: if d.flat && d.folder.len() > 0 {
                        d.moved
                    } else {
                        Seq::empty()
                    },
                    slots: slots_after_adopting(slots, character_id, config),
                },
            )
        },
    }
}

/// The next state and the action to take, for every state and event.
pub open spec fn next_step(state: StateView, event: EventView) -> (StateView, ActionView) {
    match (state, event) {
        (StateView::Idle, EventView::Begin(id)) => if slot_ids().contains(id) {
            (StateView::AwaitingSlots { character_id: id }, ActionView::LoadSlots)
        } else {
            (StateView::Finished, ActionView::Finish(Err(ErrorView::InvalidSlot)))
        },
        (StateView::AwaitingSlots { character_id }, EventView::SlotsLoaded(slots)) => after_slots(
            character_id,
            slots,
        ),
        (StateView::AwaitingProbe { character_id, slots, plan }, EventView::Probed(found)) => {
            if found && plan.recorded is Some {
                (StateView::Finished, ActionView::Finish(Ok(plan.recorded->0)))
            } else {
                (
                    StateView::AwaitingBundle {
                        character_id: character_id,
                        slots: slots,
                        url: plan.url,
                    },
                    ActionView::FetchBundle { url: plan.url },
                )
            }
        },
        (
            StateView::AwaitingBundle { character_id, slots, url },
            EventView::Unpacked { root, listing },
        ) => after_unpacking(character_id, slots, url, root, listing),
        (StateView::AwaitingPersist { config }, EventView::Persisted) => (
            StateView::Finished,
            ActionView::Finish(Ok(config)),
        ),
        (StateView::Idle, _) => (state, ActionView::Ignore),
        (StateView::Finished, _) => (state, ActionView::Ignore),
        (_, EventView::Failed(e)) => (StateView::Finished, ActionView::Finish(Err(e))),
        _ => (state, ActionView::Ignore),
    }
}

/// The step once the slot list is known.
fn step_after_slots(character_id: String, slots: Vec<CharacterSlotConfig>) -> (r: (
    ProvisionState,
    ProvisionAction,
))
    ensures
        (r.0@, r.1@) == after_slots(character_id@, slot_views(slots@)),
{
    match plan_provisioning(&slots, character_id.as_str()) {
        Err(e) => (ProvisionState::Finished, ProvisionAction::Finish(Err(e))),
        Ok(plan) => {
            let probe = match &plan.recorded {
                Some(c) => Some((c.folder.clone(), c.model_file.clone())),
                None => None,
            };
            match probe {
                Some((folder, model_file)) => (
                    ProvisionState::AwaitingProbe {
                        character_id: character_id,
                        slots: slots,
                        plan: plan,
                    },
                    ProvisionAction::Probe { folder: folder, model_file: model_file },
                ),
                None => {
                    let url = plan.url.clone();
                    (
                        ProvisionState::AwaitingBundle {
                            character_id: character_id,
                            slots: slots,
                            url: plan.url,
                        },
                        ProvisionAction::FetchBundle { url: url },
                    )
                },
            }
        },
    }
}

/// The step once the bundle is unpacked.
fn step_after_unpacking(
    character_id: String,
    slots: Vec<CharacterSlotConfig>,
    url: String,
    root: String,
    listing: Vec<Entry>,
) -> (r: (ProvisionState, ProvisionAction))
    ensures
        (r.0@, r.1@) == after_unpacking(
            character_id@,
            slot_views(slots@),
            url@,
            root@,
            trees(listing@),
        ),
{
    match detect_model_structure(root.as_str(), listing) {
        Err(e) => (ProvisionState::Finished, ProvisionAction::Finish(Err(e))),
        Ok(d) => {
            let config = ModelConfig {
                url: url,
                folder: d.folder.clone(),
                model_file: d.model_file,
                texture_folder: d.texture_folder,
            };
            let gathers = d.flat && d.folder.as_str().unicode_len() > 0;
            let written = save_model_config_for_character(
                slots,
                character_id.as_str(),
                &config,
            );
            proof {
                assert(text_views(Seq::<String>::empty()) =~= Seq::<Seq<char>>::empty());
            }
            (
                ProvisionState::AwaitingPersist { config: config },
                ProvisionAction::Persist {
                    gather_into: if gathers {
                        Some(d.folder)
                    } else {
                        None
                    },
                    moved: if gathers {
                        d.moved
                    } else {
                        Vec::new()
                    },
                    slots: written,
                },
            )
        },
    }
}

/// Advances a provisioning run by one event: gives the next state and the
/// action to take.  A failure reported while a step is awaited ends the run
/// with that failure; an event that does not belong to the state is ignored.
pub fn step(state: ProvisionState, event: ProvisionEvent) -> (r: (ProvisionState, ProvisionAction))
    ensures
        (r.0@, r.1@) == next_step(state@, event@),
{
    match state {
        ProvisionState::Idle => match event {
            ProvisionEvent::Begin(id) => {
                if is_valid_character_id(id.as_str()) {
                    (ProvisionState::AwaitingSlots { character_id: id }, ProvisionAction::LoadSlots)
                } else {
                    (
                        ProvisionState::Finished,
                        ProvisionAction::Finish(Err(CoreError::InvalidSlot)),
                    )
                }
            },
            _ => (ProvisionState::Idle, ProvisionAction::Ignore),
        },
        ProvisionState::Finished => (ProvisionState::Finished, ProvisionAction::Ignore),
        ProvisionState::AwaitingSlots { character_id } => match event {
            ProvisionEvent::SlotsLoaded(slots) => step_after_slots(character_id, slots),
            ProvisionEvent::Failed(e) => (
                ProvisionState::Finished,
                ProvisionAction::Finish(Err(e)),
            ),
            _ => (
                ProvisionState::AwaitingSlots { character_id: character_id },
                ProvisionAction::Ignore,
            ),
        },
        ProvisionState::AwaitingProbe { character_id, slots, plan } => match event {
            ProvisionEvent::Probed(found) => {
                let ProvisionPlan { url, recorded } = plan;
                match recorded {
                    Some(c) => {
                        if found {
                            (ProvisionState::Finished, ProvisionAction::Finish(Ok(c)))
                        } else {
                            let fetch = url.clone();
                            (
                                ProvisionState::AwaitingBundle {
                                    character_id: character_id,
                                    slots: slots,
                                    url: url,
                                },
                                ProvisionAction::FetchBundle { url: fetch },
                            )
                        }
                    },
                    None => {
                        let fetch = url.clone();
                        (
                            ProvisionState::AwaitingBundle {
                                character_id: character_id,
                                slots: slots,
                                url: url,
                            },
                            ProvisionAction::FetchBundle { url: fetch },
                        )
                    },
                }
            },
            ProvisionEvent::Failed(e) => (
                ProvisionState::Finished,
                ProvisionAction::Finish(Err(e)),
            ),
            _ => (
                ProvisionState::AwaitingProbe {
                    character_id: character_id,
                    slots: slots,
                    plan: plan,
                },
                ProvisionAction::Ignore,
            ),
        },
        ProvisionState::AwaitingBundle { character_id, slots, url } => match event {
            ProvisionEvent::Unpacked { root, listing } => step_after_unpacking(
                character_id,
                slots,
                url,
                root,
                listing,
            ),
            ProvisionEvent::Failed(e) => (
                ProvisionState::Finished,
                ProvisionAction::Finish(Err(e)),
            ),
            _ => (
                ProvisionState::AwaitingBundle {
                    character_id: character_id,
                    slots: slots,
                    url: url,
                },
                ProvisionAction::Ignore,
            ),
        },
        ProvisionState::AwaitingPersist { config } => match event {
            ProvisionEvent::Persisted => (
                ProvisionState::Finished,
                ProvisionAction::Finish(Ok(config)),
            ),
            ProvisionEvent::Failed(e) => (
                ProvisionState::Finished,
                ProvisionAction::Finish(Err(e)),
            ),
            _ => (ProvisionState::AwaitingPersist { config: config }, ProvisionAction::Ignore),
        },
    }
}

/// Provisioning is idempotent.  Once a run has recorded a model for a slot,
/// the next run, on the list as the next load returns it, plans nothing but
/// a look at the recorded files and holds the same model ready: it asks for
/// the probe, and with those files in place it ends there with the same
/// model, without any fetch.
pub proof fn lemma_provisioning_idempotent(
    slots: Seq<SlotView>,
    i: int,
    config: ModelConfigView,
)
    requires
        complete(slots),
        0 <= i < slot_ids().len(),
        !blank(config.url),
    ensures
        plan_for(loaded(slots_after_adopting(slots, slot_ids()[i], config)), slot_ids()[i]) == Ok::<
            PlanView,
            ErrorView,
        >(PlanView { url: config.url, recorded: Some(config) }),
        ({
            let id = slot_ids()[i];
            let again = loaded(slots_after_adopting(slots, id, config));
            let first = next_step(
                StateView::AwaitingSlots { character_id: id },
                EventView::SlotsLoaded(again),
            );
            &&& first.1 == ActionView::Probe {
                folder: config.folder,
                model_file: config.model_file,
            }
            &&& next_step(first.0, EventView::Probed(true)) == (
                StateView::Finished,
                ActionView::Finish(Ok(config)),
            )
        }),
{
    lemma_slot_ids_distinct();
    let id = slot_ids()[i];
    assert forall|j: int| 0 <= j < i implies (#[trigger] slots[j]).slot_id != id by {
        assert(slot_ids()[j] != slot_ids()[i]);
    }
    lemma_find_slot_first(slots, id, i);
    let record = adopt(slots[i], config);
    lemma_with_record_complete(slots, i, record);
    let written = slots.update(i, record);
    lemma_merge_complete(written);
    assert(slots_after_adopting(slots, id, config) == written);
    lemma_loaded_stable(written);
    let again = loaded(written);
    assert(again[i] == with_url_default(written[i]));
    assert forall|j: int| 0 <= j < i implies (#[trigger] again[j]).slot_id != id by {
        assert(slot_ids()[j] != slot_ids()[i]);
    }
    lemma_find_slot_first(again, id, i);
    assert(recorded_model(again[i]) == Some(config));
}

/// Nothing is written unless a bundle was unpacked and a model was found in
/// it: a failure at any step, and a bundle without a model, end the run with
/// the stored records as they were.
pub proof fn lemma_failure_writes_nothing(state: StateView, event: EventView)
    ensures
        next_step(state, event).1 is Persist ==> state is AwaitingBundle && (
        event matches EventView::Unpacked { listing, .. } && detected(listing) is Some),
        event is Failed ==> !(next_step(state, event).1 is Persist) && !(next_step(
            state,
            event,
        ).1 is FetchBundle),
{
}

/// A fetch is asked for only where the slot records no model or the
/// recorded descriptor is not on disk.
pub proof fn lemma_fetch_only_when_needed(state: StateView, event: EventView)
    ensures
        next_step(state, event).1 is FetchBundle ==> match (state, event) {
            (StateView::AwaitingSlots { character_id }, EventView::SlotsLoaded(slots)) => plan_for(
                slots,
                character_id,
            ) matches Ok(plan) && plan.recorded is None,
            (StateView::AwaitingProbe { plan, .. }, EventView::Probed(found)) => !found
                || plan.recorded is None,
            _ => false,
        },
{
}

} // verus!
