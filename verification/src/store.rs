//! Loading, migrating and saving the slot list: what is returned and what is
//! written back, for every state in which the stored files can be found.

use crate::error::CoreError;
use crate::slots::{
    adopt, backfilled, find_slot, lemma_backfilled_enabled, lemma_find_slot_first,
    lemma_find_slot_id, lemma_with_record_at, lemma_merge_total, merge_character_slots, merged,
    apply_slot_url_defaults, primary_id, slot_ids, slot_position, slot_views, with_record,
    CharacterSlotConfig, ModelConfig, ModelConfigView, SlotView, is_valid_character_id,
    default_model_config,
};
use crate::text::{
    copy_opt, blank, ends_with, has_suffix, is_blank, lemma_trimmed_blank, same_text, trim, trimmed,
};
use vstd::prelude::*;
use vstd::string::*;

verus! {

/// The slots file as it was found.
#[derive(Debug)]
pub enum StoredSlots {
    /// There is no slots file.
    Missing,
    /// The file is there but is not a list of records; holds the parser's words.
    Unparsable(String),
    /// The records of the file, in file order.
    Parsed(Vec<CharacterSlotConfig>),
}

/// The legacy single-slot configuration file, as it was found.
#[derive(Debug)]
pub enum LegacyConfig {
    /// There is no such file.
    Missing,
    /// The file is there but is not a configuration; holds the parser's words.
    Unparsable(String),
    /// The configuration that the file holds.
    Parsed(ModelConfig),
}

/// The configuration that a legacy file contributes, if any.
pub open spec fn legacy_view(legacy: LegacyConfig) -> Option<ModelConfigView> {
    match legacy {
        LegacyConfig::Parsed(c) => Some(c@),
        _ => None,
    }
}

/// The slot list of an installation that has no slots file yet: defaults,
/// the primary slot adopting what a legacy file holds, then backfilled.
pub open spec fn migrated(legacy: Option<ModelConfigView>) -> Seq<SlotView> {
    let base = merged(Seq::empty());
    backfilled(
        match legacy {
            Some(c) => with_record(base, primary_id(), adopt(base[0], c)),
            None => base,
        },
    )
}

/// The slot list that a parsed slots file stands for: merged, then backfilled.
pub open spec fn loaded(parsed: Seq<SlotView>) -> Seq<SlotView> {
    backfilled(merged(parsed))
}

/// A list is complete when it holds exactly the fixed identifiers in order.
pub open spec fn complete(slots: Seq<SlotView>) -> bool {
    &&& slots.len() == slot_ids().len()
    &&& forall|i: int| 0 <= i < slots.len() ==> (#[trigger] slots[i]).slot_id == slot_ids()[i]
}

/// Every enabled record of the list has a bundle URL.
pub open spec fn enabled_have_urls(slots: Seq<SlotView>) -> bool {
    forall|i: int| 0 <= i < slots.len() ==> ((#[trigger] slots[i]).enabled ==> !blank(
        slots[i].model_url,
    ))
}

/// The fixed identifiers differ from one another.
pub proof fn lemma_slot_ids_distinct()
    ensures
        slot_ids().no_duplicates(),
        slot_ids()[0] == primary_id(),
{
    reveal_strlit("character_1");
    reveal_strlit("character_2");
    reveal_strlit("character_3");
    let ids = slot_ids();
    assert(ids[0][10] == '1' && ids[1][10] == '2' && ids[2][10] == '3');
}

/// Replacing a record by one with the same identifier keeps a complete list
/// complete, and touches only that record.
pub proof fn lemma_with_record_complete(slots: Seq<SlotView>, i: int, record: SlotView)
    requires
        complete(slots),
        0 <= i < slots.len(),
        record.slot_id == slot_ids()[i],
    ensures
        with_record(slots, slot_ids()[i], record) == slots.update(i, record),
        complete(slots.update(i, record)),
{
    lemma_slot_ids_distinct();
    assert forall|j: int| 0 <= j < i implies (#[trigger] slots[j]).slot_id != slot_ids()[i] by {
        assert(slot_ids()[j] != slot_ids()[i]);
    }
    lemma_with_record_at(slots, slot_ids()[i], i, record);
}

/// Merging a complete list changes nothing: what is written back after a
/// load is what the load returned.
pub proof fn lemma_merge_complete(slots: Seq<SlotView>)
    requires
        complete(slots),
    ensures
        merged(slots) == slots,
{
    lemma_slot_ids_distinct();
    assert forall|i: int| 0 <= i < 3 implies merged(slots)[i] == slots[i] by {
        assert forall|j: int| 0 <= j < i implies (#[trigger] slots[j]).slot_id != slot_ids()[i] by {
            assert(slot_ids()[j] != slot_ids()[i]);
        }
        lemma_find_slot_first(slots, slot_ids()[i], i);
    }
    assert(merged(slots) =~= slots);
}

/// What a load returns is complete, wholly enabled, and stable under another
/// load: it is what the next load of the written file returns.
pub proof fn lemma_loaded_stable(parsed: Seq<SlotView>)
    ensures
        complete(loaded(parsed)),
        enabled_have_urls(loaded(parsed)),
        forall|i: int| 0 <= i < 3 ==> (#[trigger] loaded(parsed)[i]).enabled,
        merged(loaded(parsed)) == loaded(parsed),
        loaded(loaded(parsed)) == loaded(parsed),
{
    let l = loaded(parsed);
    lemma_merge_total(parsed);
    lemma_backfilled_enabled(merged(parsed));
    assert(complete(l));
    lemma_merge_complete(l);
    assert(loaded(l) =~= l);
}

/// The list in which the first record with the identifier has been changed
/// by `change`; a list without such a record stays as it is.
pub open spec fn with_change(
    slots: Seq<SlotView>,
    slot_id: Seq<char>,
    change: spec_fn(SlotView) -> SlotView,
) -> Seq<SlotView> {
    match find_slot(slots, slot_id) {
        Some(s) => with_record(slots, slot_id, change(s)),
        None => slots,
    }
}

/// The record with a model adopted, as an executable value.
fn adopted(record: &CharacterSlotConfig, config: &ModelConfig) -> (r: CharacterSlotConfig)
    ensures
        r@ == adopt(record@, config@),
{
    CharacterSlotConfig {
        slot_id: record.slot_id.clone(),
        model_url: config.url.clone(),
        enabled: true,
        folder: Some(config.folder.clone()),
        model_file: Some(config.model_file.clone()),
        texture_folder: copy_opt(&config.texture_folder),
    }
}

/// Puts `record` in the place of the first record with the identifier.
fn replace_record(slots: &mut Vec<CharacterSlotConfig>, i: usize, record: CharacterSlotConfig)
    requires
        i < old(slots)@.len(),
        forall|j: int| 0 <= j < i ==> (#[trigger] old(slots)@[j])@.slot_id != old(slots)@[i as int]@.slot_id,
    ensures
        slot_views(final(slots)@) == with_record(
            slot_views(old(slots)@),
            old(slots)@[i as int]@.slot_id,
            record@,
        ),
        final(slots)@ == old(slots)@.update(i as int, record),
{
    proof {
        let views = slot_views(slots@);
        assert forall|j: int| 0 <= j < i implies (#[trigger] views[j]).slot_id
            != slots@[i as int]@.slot_id by {
            assert(views[j] == slots@[j]@);
        }
        lemma_with_record_at(views, slots@[i as int]@.slot_id, i as int, record@);
        assert(slot_views(slots@.update(i as int, record)) =~= views.update(i as int, record@));
    }
    slots[i] = record;
}

/// The slot list of an installation without a slots file: the defaults, the
/// primary slot adopting what a readable legacy file holds, backfilled.  A
/// missing or unparsable legacy file contributes nothing.
pub fn migrate_or_default_character_slots(legacy: LegacyConfig) -> (r: Vec<CharacterSlotConfig>)
    ensures
        slot_views(r@) == migrated(legacy_view(legacy)),
        complete(slot_views(r@)),
        forall|i: int| 0 <= i < r@.len() ==> (#[trigger] r@[i]).enabled && !blank(r@[i].model_url@),
{
    let mut slots = merge_character_slots(Vec::new());
    proof {
        assert(slot_views(Seq::<CharacterSlotConfig>::empty()) =~= Seq::<SlotView>::empty());
        lemma_merge_total(Seq::empty());
        lemma_slot_ids_distinct();
    }
    let ghost base = slot_views(slots@);
    if let LegacyConfig::Parsed(config) = &legacy {
        let record = adopted(&slots[0], config);
        replace_record(&mut slots, 0, record);
    }
    let ghost mid = slot_views(slots@);
    apply_slot_url_defaults(&mut slots);
    proof {
        assert(slot_views(slots@) == backfilled(mid));
        assert forall|i: int| 0 <= i < 3 implies (#[trigger] slot_views(slots@)[i]).slot_id
            == slot_ids()[i] by {
            assert(slot_views(slots@)[i] == slots@[i]@);
            assert(mid[i].slot_id == base[i].slot_id);
        }
    }
    slots
}

/// What a load returns and writes back.  A parsed slots file is merged and
/// backfilled; a missing one gives way to migration; a file that is present
/// but unparsable is an error, never replaced by defaults.
pub fn load_character_slots(stored: StoredSlots, legacy: LegacyConfig) -> (r: Result<
    Vec<CharacterSlotConfig>,
    CoreError,
>)
    ensures
        match stored {
            StoredSlots::Parsed(p) => r matches Ok(v) && slot_views(v@) == loaded(slot_views(p@)),
            StoredSlots::Missing => r matches Ok(v) && slot_views(v@) == migrated(
                legacy_view(legacy),
            ),
            StoredSlots::Unparsable(m) => r matches Err(CoreError::CorruptSlotsFile(t)) && t@
                == m@,
        },
        r matches Ok(v) ==> complete(slot_views(v@)) && forall|i: int|
            0 <= i < v@.len() ==> (#[trigger] v@[i]).enabled && !blank(v@[i].model_url@),
{
    match stored {
        StoredSlots::Parsed(parsed) => {
            let ghost before = slot_views(parsed@);
            let mut slots = merge_character_slots(parsed);
            apply_slot_url_defaults(&mut slots);
            proof {
                lemma_loaded_stable(before);
            }
            Ok(slots)
        },
        StoredSlots::Missing => Ok(migrate_or_default_character_slots(legacy)),
        StoredSlots::Unparsable(m) => Err(CoreError::CorruptSlotsFile(m)),
    }
}

/// The records that a save writes: the submitted list merged against the
/// fixed identifiers, so that a partial list is written complete.
pub fn save_character_slots(slots: &Vec<CharacterSlotConfig>) -> (r: Vec<CharacterSlotConfig>)
    ensures
        slot_views(r@) == merged(slot_views(slots@)),
        complete(slot_views(r@)),
{
    let n = slots.len();
    let mut copy: Vec<CharacterSlotConfig> = Vec::new();
    let mut i: usize = 0;
    while i < n
        invariant
            n == slots@.len(),
            i <= n,
            copy@.len() == i,
            forall|k: int| 0 <= k < i ==> (#[trigger] copy@[k])@ == slots@[k]@,
        decreases n - i,
    {
        copy.push(slots[i].copy());
        i += 1;
    }
    proof {
        assert(slot_views(copy@) =~= slot_views(slots@));
        lemma_merge_total(slot_views(slots@));
    }
    merge_character_slots(copy)
}

/// Whether a slot counts as enabled after an edit: the primary slot always
/// does, whatever was asked for.
pub open spec fn stays_enabled(slot_id: Seq<char>, enabled: bool) -> bool {
    enabled || slot_id == primary_id()
}

/// Why an edit of a slot is refused, if it is.
pub open spec fn slot_edit_error(slot_id: Seq<char>, model_url: Seq<char>, enabled: bool) -> Option<
    CoreError,
> {
    if !slot_ids().contains(slot_id) {
        Some(CoreError::InvalidSlot)
    } else if stays_enabled(slot_id, enabled) && blank(model_url) {
        Some(CoreError::EnabledWithoutUrl)
    } else if !blank(model_url) && !has_suffix(trimmed(model_url), ".zip"@) {
        Some(CoreError::NotAnArchiveUrl)
    } else {
        None
    }
}

/// A record after an edit of its URL and enablement: the URL is kept
/// trimmed, and a record that ends up disabled forgets its layout.
pub open spec fn edited(s: SlotView, model_url: Seq<char>, enabled: bool) -> SlotView {
    let on = stays_enabled(s.slot_id, enabled);
    SlotView {
        model_url: trimmed(model_url),
        enabled: on,
        folder: if on { s.folder } else { None },
        model_file: if on { s.model_file } else { None },
        texture_folder: if on { s.texture_folder } else { None },
        ..s
    }
}

/// The list that is written after an accepted edit of one slot.
pub open spec fn slots_after_edit(
    slots: Seq<SlotView>,
    slot_id: Seq<char>,
    model_url: Seq<char>,
    enabled: bool,
) -> Seq<SlotView> {
    merged(with_change(slots, slot_id, |s: SlotView| edited(s, model_url, enabled)))
}

/// Checks an edit of a slot before any file is touched: an unknown
/// identifier, an enabled slot without a URL, and a URL that names no
/// `.zip` archive are refused.
pub fn check_slot_edit(slot_id: &str, model_url: &str, enabled: bool) -> (r: Result<(), CoreError>)
    ensures
        match r {
            Ok(_) => slot_edit_error(slot_id@, model_url@, enabled) is None,
            Err(e) => slot_edit_error(slot_id@, model_url@, enabled) == Some(e),
        },
{
    if !is_valid_character_id(slot_id) {
        return Err(CoreError::InvalidSlot);
    }
    let on = enabled || same_text(slot_id, "character_1");
    let is_empty = is_blank(model_url);
    if on && is_empty {
        return Err(CoreError::EnabledWithoutUrl);
    }
    if !is_empty && !ends_with(trim(model_url).as_str(), ".zip") {
        return Err(CoreError::NotAnArchiveUrl);
    }
    Ok(())
}

/// Edits the URL and enablement of one slot in the list that a load
/// returned, and gives the list to write.  An edit that `check_slot_edit`
/// refuses is refused here too.
pub fn save_character_slot(
    slots: Vec<CharacterSlotConfig>,
    slot_id: &str,
    model_url: &str,
    enabled: bool,
) -> (r: Result<Vec<CharacterSlotConfig>, CoreError>)
    ensures
        match r {
            Ok(v) => slot_edit_error(slot_id@, model_url@, enabled) is None && slot_views(v@)
                == slots_after_edit(slot_views(slots@), slot_id@, model_url@, enabled),
            Err(e) => slot_edit_error(slot_id@, model_url@, enabled) == Some(e),
        },
{
    match check_slot_edit(slot_id, model_url, enabled) {
        Err(e) => {
            return Err(e);
        },
        Ok(_) => {},
    }
    let on = enabled || same_text(slot_id, "character_1");
    let url = trim(model_url);
    let mut slots = slots;
    let ghost before = slot_views(slots@);
    match slot_position(&slots, slot_id) {
        Some(i) => {
            let old_record = &slots[i];
            let record = CharacterSlotConfig {
                slot_id: old_record.slot_id.clone(),
                model_url: url,
                enabled: on,
                folder: if on { copy_opt(&old_record.folder) } else { None },
                model_file: if on { copy_opt(&old_record.model_file) } else { None },
                texture_folder: if on { copy_opt(&old_record.texture_folder) } else { None },
            };
            replace_record(&mut slots, i, record);
        },
        None => {},
    }
    Ok(merge_character_slots(slots))
}

/// An accepted edit of a slot writes a complete list in which that slot has
/// the trimmed URL and every other slot is as it was.  A slot other than the
/// primary one is written enabled or disabled as asked; the primary slot is
/// written enabled whatever was asked.
pub proof fn lemma_edit_enablement(slots: Seq<SlotView>, i: int, model_url: Seq<char>, enabled: bool)
    requires
        complete(slots),
        0 <= i < slot_ids().len(),
        slot_edit_error(slot_ids()[i], model_url, enabled) is None,
    ensures
        ({
            let after = slots_after_edit(slots, slot_ids()[i], model_url, enabled);
            &&& complete(after)
            &&& after == slots.update(i, edited(slots[i], model_url, enabled))
            &&& after[i].model_url == trimmed(model_url)
            &&& after[i].enabled == (enabled || i == 0)
            &&& !after[i].enabled ==> after[i].folder is None && after[i].model_file is None
        }),
{
    lemma_slot_ids_distinct();
    let id = slot_ids()[i];
    assert forall|j: int| 0 <= j < i implies (#[trigger] slots[j]).slot_id != id by {
        assert(slot_ids()[j] != slot_ids()[i]);
    }
    lemma_find_slot_first(slots, id, i);
    let record = edited(slots[i], model_url, enabled);
    lemma_with_record_complete(slots, i, record);
    lemma_merge_complete(slots.update(i, record));
}

/// An edit with a blank URL is refused for every slot that would end up
/// enabled: every enabled request, and every request for the primary slot.
pub proof fn lemma_enabled_needs_url(slot_id: Seq<char>, model_url: Seq<char>, enabled: bool)
    requires
        slot_ids().contains(slot_id),
        blank(model_url),
        enabled || slot_id == primary_id(),
    ensures
        slot_edit_error(slot_id, model_url, enabled) == Some(CoreError::EnabledWithoutUrl),
{
}

/// Where every enabled slot had a URL before an accepted edit, every
/// enabled slot has one after it.
pub proof fn lemma_edit_keeps_urls(
    slots: Seq<SlotView>,
    i: int,
    model_url: Seq<char>,
    enabled: bool,
)
    requires
        complete(slots),
        enabled_have_urls(slots),
        0 <= i < slot_ids().len(),
        slot_edit_error(slot_ids()[i], model_url, enabled) is None,
    ensures
        enabled_have_urls(slots_after_edit(slots, slot_ids()[i], model_url, enabled)),
{
    lemma_edit_enablement(slots, i, model_url, enabled);
    lemma_trimmed_blank(model_url);
    lemma_slot_ids_distinct();
    let after = slots_after_edit(slots, slot_ids()[i], model_url, enabled);
    assert forall|j: int| 0 <= j < after.len() && (#[trigger] after[j]).enabled implies !blank(
        after[j].model_url,
    ) by {
        if j != i {
            assert(after[j] == slots[j]);
        }
    }
}

/// A record that starts over with another bundle: enabled, its layout
/// forgotten until the bundle is provisioned.
pub open spec fn reset_to(s: SlotView, url: Seq<char>) -> SlotView {
    SlotView {
        model_url: url,
        enabled: true,
        folder: None,
        model_file: None,
        texture_folder: None,
        ..s
    }
}

/// Why a change of model is refused whatever the slot list holds, if it is.
pub open spec fn model_change_refusal(character_id: Seq<char>, url: Seq<char>) -> Option<
    CoreError,
> {
    if !slot_ids().contains(character_id) {
        Some(CoreError::InvalidSlot)
    } else if !has_suffix(url, ".zip"@) {
        Some(CoreError::NotAZipUrl)
    } else {
        None
    }
}

/// Why a change of model is refused, if it is.
pub open spec fn model_change_error(
    slots: Seq<SlotView>,
    character_id: Seq<char>,
    url: Seq<char>,
) -> Option<CoreError> {
    match model_change_refusal(character_id, url) {
        Some(e) => Some(e),
        None => if find_slot(slots, character_id) is None {
            Some(CoreError::SlotNotFound)
        } else {
            None
        },
    }
}

/// Checks a change of model before any file is touched: an unknown
/// identifier and a URL that does not end in `.zip` are refused.
pub fn check_model_change(character_id: &str, url: &str) -> (r: Result<(), CoreError>)
    ensures
        match r {
            Ok(_) => model_change_refusal(character_id@, url@) is None,
            Err(e) => model_change_refusal(character_id@, url@) == Some(e),
        },
{
    if !is_valid_character_id(character_id) {
        return Err(CoreError::InvalidSlot);
    }
    if !ends_with(url, ".zip") {
        return Err(CoreError::NotAZipUrl);
    }
    Ok(())
}

/// Points a character's slot at another bundle, in the list that a load
/// returned, and gives the list to write before the bundle is provisioned.
/// A change that `check_model_change` refuses is refused here too.
pub fn change_model_for_character(
    slots: Vec<CharacterSlotConfig>,
    character_id: &str,
    url: &str,
) -> (r: Result<Vec<CharacterSlotConfig>, CoreError>)
    ensures
        match r {
            Ok(v) => model_change_error(slot_views(slots@), character_id@, url@) is None
                && slot_views(v@) == merged(
                with_change(slot_views(slots@), character_id@, |s: SlotView| reset_to(s, url@)),
            ),
            Err(e) => model_change_error(slot_views(slots@), character_id@, url@) == Some(e),
        },
{
    match check_model_change(character_id, url) {
        Err(e) => {
            return Err(e);
        },
        Ok(_) => {},
    }
    let mut slots = slots;
    match slot_position(&slots, character_id) {
        Some(i) => {
            let record = CharacterSlotConfig {
                slot_id: slots[i].slot_id.clone(),
                model_url: String::from_str(url),
                enabled: true,
                folder: None,
                model_file: None,
                texture_folder: None,
            };
            replace_record(&mut slots, i, record);
            Ok(merge_character_slots(slots))
        },
        None => Err(CoreError::SlotNotFound),
    }
}

/// Adopting a model changes the record of that one slot and no other.
pub proof fn lemma_adopting_touches_one(slots: Seq<SlotView>, i: int, config: ModelConfigView)
    requires
        complete(slots),
        0 <= i < slot_ids().len(),
    ensures
        slots_after_adopting(slots, slot_ids()[i], config) == slots.update(
            i,
            adopt(slots[i], config),
        ),
        complete(slots_after_adopting(slots, slot_ids()[i], config)),
{
    lemma_slot_ids_distinct();
    let id = slot_ids()[i];
    assert forall|j: int| 0 <= j < i implies (#[trigger] slots[j]).slot_id != id by {
        assert(slot_ids()[j] != slot_ids()[i]);
    }
    lemma_find_slot_first(slots, id, i);
    let a = adopt(slots[i], config);
    lemma_with_record_complete(slots, i, a);
    lemma_merge_complete(slots.update(i, a));
}

/// A record names a folder and a descriptor together or not at all.
pub open spec fn paired(s: SlotView) -> bool {
    s.folder is Some <==> s.model_file is Some
}

/// Every record of a list names a folder and a descriptor together or not at
/// all.
pub open spec fn all_paired(slots: Seq<SlotView>) -> bool {
    forall|i: int| 0 <= i < slots.len() ==> paired(#[trigger] slots[i])
}

/// Merging, loading and migrating keep folder and descriptor together.
pub proof fn lemma_load_keeps_pairs(parsed: Seq<SlotView>, legacy: Option<ModelConfigView>)
    requires
        all_paired(parsed),
    ensures
        all_paired(merged(parsed)),
        all_paired(loaded(parsed)),
        all_paired(migrated(legacy)),
{
    assert forall|i: int| 0 <= i < 3 implies paired(#[trigger] merged(parsed)[i]) by {
        lemma_find_slot_id(parsed, slot_ids()[i]);
    }
    lemma_merge_total(Seq::empty());
    lemma_slot_ids_distinct();
    let base = merged(Seq::<SlotView>::empty());
    if let Some(c) = legacy {
        lemma_with_record_complete(base, 0, adopt(base[0], c));
    }
}

/// An accepted edit and the adoption of a model keep folder and descriptor
/// together.
pub proof fn lemma_changes_keep_pairs(
    slots: Seq<SlotView>,
    i: int,
    model_url: Seq<char>,
    enabled: bool,
    config: ModelConfigView,
)
    requires
        complete(slots),
        all_paired(slots),
        0 <= i < slot_ids().len(),
    ensures
        all_paired(slots_after_edit(slots, slot_ids()[i], model_url, enabled)),
        all_paired(slots_after_adopting(slots, slot_ids()[i], config)),
{
    lemma_slot_ids_distinct();
    let id = slot_ids()[i];
    assert forall|j: int| 0 <= j < i implies (#[trigger] slots[j]).slot_id != id by {
        assert(slot_ids()[j] != slot_ids()[i]);
    }
    lemma_find_slot_first(slots, id, i);
    let e = edited(slots[i], model_url, enabled);
    lemma_with_record_complete(slots, i, e);
    lemma_merge_complete(slots.update(i, e));
    let a = adopt(slots[i], config);
    lemma_with_record_complete(slots, i, a);
    lemma_merge_complete(slots.update(i, a));
}

/// The first enabled record with the given identifier, if there is one.
pub open spec fn find_enabled_slot(slots: Seq<SlotView>, slot_id: Seq<char>) -> Option<SlotView>
    decreases slots.len(),
{
    if slots.len() == 0 {
        None
    } else if slots[0].slot_id == slot_id && slots[0].enabled {
        Some(slots[0])
    } else {
        find_enabled_slot(slots.drop_first(), slot_id)
    }
}

/// The model that a slot record describes, where it names both a folder and
/// a descriptor.
pub open spec fn recorded_model(s: SlotView) -> Option<ModelConfigView> {
    match (s.folder, s.model_file) {
        (Some(folder), Some(model_file)) => Some(
            ModelConfigView {
                url: s.model_url,
                folder: folder,
                model_file: model_file,
                texture_folder: s.texture_folder,
            },
        ),
        _ => None,
    }
}

/// The model of a character: what its enabled slot records, else what the
/// legacy file holds, else the model that ships with the application.
pub open spec fn model_config_of(
    slots: Seq<SlotView>,
    character_id: Seq<char>,
    legacy: LegacyConfig,
) -> Result<ModelConfigView, CoreError> {
    let recorded = match find_enabled_slot(slots, character_id) {
        Some(s) => recorded_model(s),
        None => None,
    };
    match recorded {
        Some(c) => Ok(c),
        None => match legacy {
            LegacyConfig::Parsed(c) => Ok(c@),
            LegacyConfig::Unparsable(m) => Err(CoreError::CorruptModelConfig(m)),
            LegacyConfig::Missing => Ok(default_model_config()),
        },
    }
}

/// The model that a slot record describes, as an executable value.
pub fn model_of_record(record: &CharacterSlotConfig) -> (r: Option<ModelConfig>)
    ensures
        match r {
            Some(c) => recorded_model(record@) == Some(c@),
            None => recorded_model(record@) is None,
        },
{
    match (&record.folder, &record.model_file) {
        (Some(folder), Some(model_file)) => Some(
            ModelConfig {
                url: record.model_url.clone(),
                folder: folder.clone(),
                model_file: model_file.clone(),
                texture_folder: copy_opt(&record.texture_folder),
            },
        ),
        _ => None,
    }
}

/// The index of the first enabled record with the given identifier.
fn enabled_slot_position(slots: &Vec<CharacterSlotConfig>, slot_id: &str) -> (r: Option<usize>)
    ensures
        match r {
            Some(i) => i < slots@.len() && find_enabled_slot(slot_views(slots@), slot_id@) == Some(
                slots@[i as int]@,
            ),
            None => find_enabled_slot(slot_views(slots@), slot_id@) is None,
        },
{
    let n = slots.len();
    let mut i: usize = 0;
    let ghost views = slot_views(slots@);
    assert(views.subrange(0, n as int) =~= views);
    while i < n
        invariant
            n == slots@.len(),
            views == slot_views(slots@),
            i <= n,
            find_enabled_slot(views, slot_id@) == find_enabled_slot(
                views.subrange(i as int, n as int),
                slot_id@,
            ),
        decreases n - i,
    {
        let ghost tail = views.subrange(i as int, n as int);
        assert(tail[0] == slots@[i as int]@);
        assert(tail.drop_first() =~= views.subrange(i + 1, n as int));
        if slots[i].enabled && same_text(slots[i].slot_id.as_str(), slot_id) {
            return Some(i);
        }
        i += 1;
    }
    None
}

/// The model of a character, from the loaded slot list and the legacy file.
pub fn load_model_config_for_character(
    slots: &Vec<CharacterSlotConfig>,
    character_id: &str,
    legacy: LegacyConfig,
) -> (r: Result<ModelConfig, CoreError>)
    ensures
        match r {
            Ok(c) => model_config_of(slot_views(slots@), character_id@, legacy) == Ok::<
                ModelConfigView,
                CoreError,
            >(c@),
            Err(e) => model_config_of(slot_views(slots@), character_id@, legacy) == Err::<
                ModelConfigView,
                CoreError,
            >(e),
        },
{
    if let Some(i) = enabled_slot_position(slots, character_id) {
        if let Some(c) = model_of_record(&slots[i]) {
            return Ok(c);
        }
    }
    match legacy {
        LegacyConfig::Parsed(c) => Ok(c),
        LegacyConfig::Unparsable(m) => Err(CoreError::CorruptModelConfig(m)),
        LegacyConfig::Missing => Ok(ModelConfig::default()),
    }
}

/// The model of the primary character.
pub fn load_model_config(slots: &Vec<CharacterSlotConfig>, legacy: LegacyConfig) -> (r: Result<
    ModelConfig,
    CoreError,
>)
    ensures
        match r {
            Ok(c) => model_config_of(slot_views(slots@), primary_id(), legacy) == Ok::<
                ModelConfigView,
                CoreError,
            >(c@),
            Err(e) => model_config_of(slot_views(slots@), primary_id(), legacy) == Err::<
                ModelConfigView,
                CoreError,
            >(e),
        },
{
    load_model_config_for_character(slots, "character_1", legacy)
}

/// The list that is written when a character adopts a model.
pub open spec fn slots_after_adopting(
    slots: Seq<SlotView>,
    character_id: Seq<char>,
    config: ModelConfigView,
) -> Seq<SlotView> {
    merged(with_change(slots, character_id, |s: SlotView| adopt(s, config)))
}

/// Records a model in a character's slot and gives the list to write.
/// Nothing else is written: the legacy single-slot file is only ever read.
pub fn save_model_config_for_character(
    slots: Vec<CharacterSlotConfig>,
    character_id: &str,
    config: &ModelConfig,
) -> (r: Vec<CharacterSlotConfig>)
    ensures
        slot_views(r@) == slots_after_adopting(slot_views(slots@), character_id@, config@),
{
    let mut slots = slots;
    match slot_position(&slots, character_id) {
        Some(i) => {
            let record = adopted(&slots[i], config);
            replace_record(&mut slots, i, record);
        },
        None => {},
    }
    merge_character_slots(slots)
}

/// Records a model in the primary character's slot and gives the list to
/// write.
pub fn save_model_config(slots: Vec<CharacterSlotConfig>, config: &ModelConfig) -> (r: Vec<
    CharacterSlotConfig,
>)
    ensures
        slot_views(r@) == slots_after_adopting(slot_views(slots@), primary_id(), config@),
{
    save_model_config_for_character(slots, "character_1", config)
}

} // verus!
