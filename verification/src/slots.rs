//! The slot store: one configuration record per character slot, merged
//! against the fixed slot identifiers and backfilled with built-in defaults.

use crate::text::{blank, copy_opt, is_blank, is_space, opt_view, same_text};
use vstd::prelude::*;
use vstd::string::*;

verus! {

/// The identifiers of the character slots, in their fixed order.
pub open spec fn slot_ids() -> Seq<Seq<char>> {
    seq!["character_1"@, "character_2"@, "character_3"@]
}

/// The identifier of the primary slot.
pub open spec fn primary_id() -> Seq<char> {
    "character_1"@
}

/// The bundle that a freshly installed primary character uses.
pub open spec fn default_model_url() -> Seq<char> {
    "https://storage.googleapis.com/oto_bucket/live2d/Hiyori1.zip"@
}

/// The built-in bundle of each slot; unknown identifiers share the first.
pub open spec fn default_url(slot_id: Seq<char>) -> Seq<char> {
    if slot_id == "character_2"@ {
        "https://storage.googleapis.com/oto_bucket/live2d/cat3.zip"@
    } else if slot_id == "character_3"@ {
        "https://storage.googleapis.com/oto_bucket/live2d/steve.zip"@
    } else {
        "https://storage.googleapis.com/oto_bucket/live2d/Hiyori.zip"@
    }
}

/// Where a character's model lives and which bundle it came from.
#[derive(Debug)]
pub struct ModelConfig {
    pub url: String,
    pub folder: String,
    pub model_file: String,
    pub texture_folder: Option<String>,
}

/// A model configuration as a value.
pub ghost struct ModelConfigView {
    pub url: Seq<char>,
    pub folder: Seq<char>,
    pub model_file: Seq<char>,
    pub texture_folder: Option<Seq<char>>,
}

impl View for ModelConfig {
    type V = ModelConfigView;

    open spec fn view(&self) -> ModelConfigView {
        ModelConfigView {
            url: self.url@,
            folder: self.folder@,
            model_file: self.model_file@,
            texture_folder: opt_view(self.texture_folder),
        }
    }
}

/// The configuration that ships with the application.
pub open spec fn default_model_config() -> ModelConfigView {
    ModelConfigView {
        url: default_model_url(),
        folder: "Hiyori"@,
        model_file: "Hiyori.model3.json"@,
        texture_folder: Some("Hiyori.2048"@),
    }
}

impl ModelConfig {
    /// A copy with the same view.
    pub fn copy(&self) -> (r: ModelConfig)
        ensures
            r@ == self@,
    {
        ModelConfig {
            url: self.url.clone(),
            folder: self.folder.clone(),
            model_file: self.model_file.clone(),
            texture_folder: copy_opt(&self.texture_folder),
        }
    }
}

impl Default for ModelConfig {
    fn default() -> (r: ModelConfig)
        ensures
            r@ == default_model_config(),
    {
        ModelConfig {
            url: String::from_str("https://storage.googleapis.com/oto_bucket/live2d/Hiyori1.zip"),
            folder: String::from_str("Hiyori"),
            model_file: String::from_str("Hiyori.model3.json"),
            texture_folder: Some(String::from_str("Hiyori.2048")),
        }
    }
}

/// The persisted record of one character slot.
#[derive(Debug)]
pub struct CharacterSlotConfig {
    pub slot_id: String,
    pub model_url: String,
    pub enabled: bool,
    pub folder: Option<String>,
    pub model_file: Option<String>,
    pub texture_folder: Option<String>,
}

/// A slot record as a value.
pub ghost struct SlotView {
    pub slot_id: Seq<char>,
    pub model_url: Seq<char>,
    pub enabled: bool,
    pub folder: Option<Seq<char>>,
    pub model_file: Option<Seq<char>>,
    pub texture_folder: Option<Seq<char>>,
}

impl View for CharacterSlotConfig {
    type V = SlotView;

    open spec fn view(&self) -> SlotView {
        SlotView {
            slot_id: self.slot_id@,
            model_url: self.model_url@,
            enabled: self.enabled,
            folder: opt_view(self.folder),
            model_file: opt_view(self.model_file),
            texture_folder: opt_view(self.texture_folder),
        }
    }
}

/// The views of a list of slot records.
pub open spec fn slot_views(slots: Seq<CharacterSlotConfig>) -> Seq<SlotView> {
    Seq::new(slots.len(), |i: int| slots[i]@)
}

/// The record synthesized for a slot that has none: the slot's built-in
/// bundle, enabled only for the primary slot, and no layout, which only
/// provisioning records.
pub open spec fn default_slot(slot_id: Seq<char>) -> SlotView {
    SlotView {
        slot_id: slot_id,
        model_url: default_url(slot_id),
        enabled: slot_id == primary_id(),
        folder: None,
        model_file: None,
        texture_folder: None,
    }
}

/// The built-in bundle URL of a slot.
pub fn slot_default_url(slot_id: &str) -> (r: &'static str)
    ensures
        r@ == default_url(slot_id@),
{
    if same_text(slot_id, "character_2") {
        "https://storage.googleapis.com/oto_bucket/live2d/cat3.zip"
    } else if same_text(slot_id, "character_3") {
        "https://storage.googleapis.com/oto_bucket/live2d/steve.zip"
    } else {
        "https://storage.googleapis.com/oto_bucket/live2d/Hiyori.zip"
    }
}

/// Whether `character_id` names one of the fixed slots.
pub fn is_valid_character_id(character_id: &str) -> (r: bool)
    ensures
        r == slot_ids().contains(character_id@),
{
    let r = same_text(character_id, "character_1") || same_text(character_id, "character_2")
        || same_text(character_id, "character_3");
    proof {
        let ids = slot_ids();
        assert(ids[0] == "character_1"@ && ids[1] == "character_2"@ && ids[2] == "character_3"@);
        assert(ids.len() == 3);
    }
    r
}

/// The window label of a character's overlay.
pub fn overlay_label_for_character(character_id: &str) -> (r: String)
    ensures
        r@ == "overlay-"@ + character_id@,
{
    String::from_str("overlay-").concat(character_id)
}

impl CharacterSlotConfig {
    /// A copy with the same view.
    pub fn copy(&self) -> (r: CharacterSlotConfig)
        ensures
            r@ == self@,
    {
        CharacterSlotConfig {
            slot_id: self.slot_id.clone(),
            model_url: self.model_url.clone(),
            enabled: self.enabled,
            folder: copy_opt(&self.folder),
            model_file: copy_opt(&self.model_file),
            texture_folder: copy_opt(&self.texture_folder),
        }
    }

    /// The record synthesized for a slot that has none.
    pub fn default_with_id(slot_id: &str) -> (r: CharacterSlotConfig)
        ensures
            r@ == default_slot(slot_id@),
    {
        CharacterSlotConfig {
            slot_id: String::from_str(slot_id),
            model_url: String::from_str(slot_default_url(slot_id)),
            enabled: same_text(slot_id, "character_1"),
            folder: None,
            model_file: None,
            texture_folder: None,
        }
    }
}

/// The first record with the given identifier, if there is one.
pub open spec fn find_slot(slots: Seq<SlotView>, slot_id: Seq<char>) -> Option<SlotView>
    decreases slots.len(),
{
    if slots.len() == 0 {
        None
    } else if slots[0].slot_id == slot_id {
        Some(slots[0])
    } else {
        find_slot(slots.drop_first(), slot_id)
    }
}

/// The record that a merge keeps for one identifier: the first submitted
/// record with that identifier, else the slot's default.
pub open spec fn merged_slot(slots: Seq<SlotView>, slot_id: Seq<char>) -> SlotView {
    match find_slot(slots, slot_id) {
        Some(s) => s,
        None => default_slot(slot_id),
    }
}

/// The merge of a submitted list against the fixed identifiers.
pub open spec fn merged(slots: Seq<SlotView>) -> Seq<SlotView> {
    Seq::new(3, |i: int| merged_slot(slots, slot_ids()[i]))
}

/// `find_slot` returns the first record whose identifier matches.
pub proof fn lemma_find_slot_first(slots: Seq<SlotView>, slot_id: Seq<char>, i: int)
    requires
        0 <= i < slots.len(),
        slots[i].slot_id == slot_id,
        forall|j: int| 0 <= j < i ==> (#[trigger] slots[j]).slot_id != slot_id,
    ensures
        find_slot(slots, slot_id) == Some(slots[i]),
    decreases i,
{
    if i > 0 {
        assert(slots[0].slot_id != slot_id);
        let rest = slots.drop_first();
        assert forall|j: int| 0 <= j < i - 1 implies (#[trigger] rest[j]).slot_id != slot_id by {
            assert(rest[j] == slots[j + 1]);
        }
        lemma_find_slot_first(rest, slot_id, i - 1);
    }
}

/// `find_slot` finds nothing where no identifier matches.
pub proof fn lemma_find_slot_none(slots: Seq<SlotView>, slot_id: Seq<char>)
    requires
        forall|j: int| 0 <= j < slots.len() ==> (#[trigger] slots[j]).slot_id != slot_id,
    ensures
        find_slot(slots, slot_id) is None,
    decreases slots.len(),
{
    if slots.len() > 0 {
        assert(slots[0].slot_id != slot_id);
        let rest = slots.drop_first();
        assert forall|j: int| 0 <= j < rest.len() implies (#[trigger] rest[j]).slot_id
            != slot_id by {
            assert(rest[j] == slots[j + 1]);
        }
        lemma_find_slot_none(rest, slot_id);
    }
}

/// What `find_slot` returns carries the identifier that was asked for.
pub proof fn lemma_find_slot_id(slots: Seq<SlotView>, slot_id: Seq<char>)
    ensures
        find_slot(slots, slot_id) matches Some(s) ==> s.slot_id == slot_id && slots.contains(s),
    decreases slots.len(),
{
    if slots.len() > 0 && slots[0].slot_id != slot_id {
        let rest = slots.drop_first();
        lemma_find_slot_id(rest, slot_id);
        if let Some(s) = find_slot(rest, slot_id) {
            let j = choose|j: int| 0 <= j < rest.len() && rest[j] == s;
            assert(slots[j + 1] == s);
        }
    }
}

/// A merge always yields exactly the fixed identifiers, in their fixed
/// order, whatever subset of them was submitted.
pub proof fn lemma_merge_total(slots: Seq<SlotView>)
    ensures
        merged(slots).len() == slot_ids().len(),
        forall|i: int|
            0 <= i < slot_ids().len() ==> (#[trigger] merged(slots)[i]).slot_id == slot_ids()[i],
{
    assert forall|i: int| 0 <= i < slot_ids().len() implies (#[trigger] merged(slots)[i]).slot_id
        == slot_ids()[i] by {
        lemma_find_slot_id(slots, slot_ids()[i]);
    }
}

/// The index of the first record with the given identifier.
pub fn slot_position(slots: &Vec<CharacterSlotConfig>, slot_id: &str) -> (r: Option<usize>)
    ensures
        match r {
            Some(i) => i < slots@.len() && find_slot(slot_views(slots@), slot_id@) == Some(
                slots@[i as int]@,
            ) && slots@[i as int]@.slot_id == slot_id@ && forall|j: int|
                0 <= j < i ==> (#[trigger] slots@[j])@.slot_id != slot_id@,
            None => find_slot(slot_views(slots@), slot_id@) is None && forall|j: int|
                0 <= j < slots@.len() ==> (#[trigger] slots@[j])@.slot_id != slot_id@,
        },
{
    let n = slots.len();
    let mut i: usize = 0;
    while i < n
        invariant
            n == slots@.len(),
            i <= n,
            forall|j: int| 0 <= j < i ==> (#[trigger] slots@[j])@.slot_id != slot_id@,
        decreases n - i,
    {
        if same_text(slots[i].slot_id.as_str(), slot_id) {
            proof {
                let views = slot_views(slots@);
                assert forall|j: int| 0 <= j < i implies (#[trigger] views[j]).slot_id
                    != slot_id@ by {
                    assert(views[j] == slots@[j]@);
                }
                lemma_find_slot_first(views, slot_id@, i as int);
            }
            return Some(i);
        }
        i += 1;
    }
    proof {
        let views = slot_views(slots@);
        assert forall|j: int| 0 <= j < views.len() implies (#[trigger] views[j]).slot_id
            != slot_id@ by {
            assert(views[j] == slots@[j]@);
        }
        lemma_find_slot_none(views, slot_id@);
    }
    None
}

/// The record that a merge keeps for `slot_id`.
fn merged_record(slots: &Vec<CharacterSlotConfig>, slot_id: &str) -> (r: CharacterSlotConfig)
    ensures
        r@ == merged_slot(slot_views(slots@), slot_id@),
{
    match slot_position(slots, slot_id) {
        Some(i) => slots[i].copy(),
        None => CharacterSlotConfig::default_with_id(slot_id),
    }
}

/// Merges a submitted list against the fixed identifiers: one record per
/// identifier, in fixed order, defaults standing in for missing ones.
pub fn merge_character_slots(slots: Vec<CharacterSlotConfig>) -> (r: Vec<CharacterSlotConfig>)
    ensures
        slot_views(r@) == merged(slot_views(slots@)),
        r@.len() == 3,
        forall|i: int| 0 <= i < 3 ==> (#[trigger] r@[i])@.slot_id == slot_ids()[i],
{
    let mut r: Vec<CharacterSlotConfig> = Vec::new();
    r.push(merged_record(&slots, "character_1"));
    r.push(merged_record(&slots, "character_2"));
    r.push(merged_record(&slots, "character_3"));
    proof {
        lemma_merge_total(slot_views(slots@));
        assert(slot_views(r@) =~= merged(slot_views(slots@)));
        assert forall|i: int| 0 <= i < 3 implies (#[trigger] r@[i])@.slot_id == slot_ids()[i] by {
            assert(slot_views(r@)[i] == r@[i]@);
        }
    }
    r
}

/// A record after backfilling: a blank URL gives way to the slot's built-in
/// bundle, and a record that then has a URL counts as enabled.
pub open spec fn with_url_default(s: SlotView) -> SlotView {
    let url = if blank(s.model_url) {
        default_url(s.slot_id)
    } else {
        s.model_url
    };
    SlotView { model_url: url, enabled: s.enabled || !blank(url), ..s }
}

/// Every record of a list after backfilling.
pub open spec fn backfilled(slots: Seq<SlotView>) -> Seq<SlotView> {
    Seq::new(slots.len(), |i: int| with_url_default(slots[i]))
}

/// The record adopts a model: its bundle, its layout, and enablement.
pub open spec fn adopt(s: SlotView, c: ModelConfigView) -> SlotView {
    SlotView {
        model_url: c.url,
        enabled: true,
        folder: Some(c.folder),
        model_file: Some(c.model_file),
        texture_folder: c.texture_folder,
        ..s
    }
}

/// The list in which the first record with the given identifier, if there is
/// one, has given way to `record`.
pub open spec fn with_record(slots: Seq<SlotView>, slot_id: Seq<char>, record: SlotView) -> Seq<
    SlotView,
>
    decreases slots.len(),
{
    if slots.len() == 0 {
        slots
    } else if slots[0].slot_id == slot_id {
        slots.update(0, record)
    } else {
        seq![slots[0]] + with_record(slots.drop_first(), slot_id, record)
    }
}

/// Replacing by identifier replaces at the first index that carries it.
pub proof fn lemma_with_record_at(
    slots: Seq<SlotView>,
    slot_id: Seq<char>,
    i: int,
    record: SlotView,
)
    requires
        0 <= i < slots.len(),
        slots[i].slot_id == slot_id,
        forall|j: int| 0 <= j < i ==> (#[trigger] slots[j]).slot_id != slot_id,
    ensures
        with_record(slots, slot_id, record) == slots.update(i, record),
    decreases i,
{
    if i > 0 {
        assert(slots[0].slot_id != slot_id);
        let rest = slots.drop_first();
        assert forall|j: int| 0 <= j < i - 1 implies (#[trigger] rest[j]).slot_id != slot_id by {
            assert(rest[j] == slots[j + 1]);
        }
        lemma_with_record_at(rest, slot_id, i - 1, record);
        assert(seq![slots[0]] + rest.update(i - 1, record) =~= slots.update(i, record));
    }
}

/// No built-in bundle URL is blank.
pub proof fn lemma_default_url_not_blank(slot_id: Seq<char>)
    ensures
        !blank(default_url(slot_id)),
{
    reveal_strlit("https://storage.googleapis.com/oto_bucket/live2d/cat3.zip");
    reveal_strlit("https://storage.googleapis.com/oto_bucket/live2d/steve.zip");
    reveal_strlit("https://storage.googleapis.com/oto_bucket/live2d/Hiyori.zip");
    let u = default_url(slot_id);
    assert(u.len() > 0 && u[0] == 'h');
    assert(!is_space(u[0]));
}

/// After backfilling every record is enabled and has a URL.
pub proof fn lemma_backfilled_enabled(slots: Seq<SlotView>)
    ensures
        backfilled(slots).len() == slots.len(),
        forall|i: int|
            0 <= i < slots.len() ==> {
                let s = #[trigger] backfilled(slots)[i];
                s.enabled && !blank(s.model_url) && s.slot_id == slots[i].slot_id
            },
{
    assert forall|i: int| 0 <= i < slots.len() implies {
        let s = #[trigger] backfilled(slots)[i];
        s.enabled && !blank(s.model_url) && s.slot_id == slots[i].slot_id
    } by {
        lemma_default_url_not_blank(slots[i].slot_id);
    }
}

/// Backfills every record whose URL is blank with its slot's built-in bundle
/// and enables every record that then has a URL.
pub fn apply_slot_url_defaults(slots: &mut Vec<CharacterSlotConfig>)
    ensures
        slot_views(final(slots)@) == backfilled(slot_views(old(slots)@)),
        final(slots)@.len() == old(slots)@.len(),
        forall|i: int|
            0 <= i < final(slots)@.len() ==> {
                let s = #[trigger] final(slots)@[i];
                s.enabled && !blank(s.model_url@) && s.slot_id@ == old(slots)@[i].slot_id@
            },
{
    let n = slots.len();
    let mut out: Vec<CharacterSlotConfig> = Vec::new();
    let mut i: usize = 0;
    while i < n
        invariant
            n == slots@.len(),
            i <= n,
            out@.len() == i,
            forall|k: int| 0 <= k < i ==> (#[trigger] out@[k])@ == with_url_default(slots@[k]@),
        decreases n - i,
    {
        let mut rec = slots[i].copy();
        if is_blank(rec.model_url.as_str()) {
            rec.model_url = String::from_str(slot_default_url(rec.slot_id.as_str()));
        }
        proof {
            lemma_default_url_not_blank(rec.slot_id@);
        }
        rec.enabled = true;
        out.push(rec);
        i += 1;
    }
    proof {
        let before = slot_views(slots@);
        lemma_backfilled_enabled(before);
        assert(slot_views(out@) =~= backfilled(before));
        assert forall|k: int| 0 <= k < out@.len() implies {
            let s = #[trigger] out@[k];
            s.enabled && !blank(s.model_url@) && s.slot_id@ == slots@[k].slot_id@
        } by {
            assert(backfilled(before)[k] == out@[k]@);
        }
    }
    *slots = out;
}

} // verus!
