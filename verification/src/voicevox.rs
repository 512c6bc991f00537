//! The bookkeeping around the VOICEVOX speech engine: its errors, which
//! voice model files are loaded, and which model file speaks each style.

use vstd::prelude::*;
use vstd::string::*;
use std::collections::HashMap;

use crate::text::{decimal, decimal_text};

verus! {

broadcast use vstd::std_specs::hash::group_hash_axioms;

/// A result code of the engine's C API.
pub type VoicevoxResultCode = i32;

/// The result code of success.
pub const VOICEVOX_RESULT_OK: VoicevoxResultCode = 0;

/// The 16-byte identifier of a voice model.
pub type VoiceModelId = [u8; 16];

/// The engine's ONNX runtime, only ever seen behind a pointer.
pub struct VoicevoxOnnxruntime(pub u8);

/// The OpenJTalk dictionary, only ever seen behind a pointer.
pub struct OpenJtalkRc(pub u8);

/// A speech synthesizer, only ever seen behind a pointer.
pub struct VoicevoxSynthesizer(pub u8);

/// An opened voice model file, only ever seen behind a pointer.
pub struct VoicevoxVoiceModelFile(pub u8);

/// Options of a synthesizer.
pub struct VoicevoxInitializeOptions {
    pub acceleration_mode: i32,
    pub cpu_num_threads: u16,
}

/// Options of one text-to-speech call.
pub struct VoicevoxTtsOptions {
    pub enable_interrogative_upspeak: bool,
}

/// An error of the engine or of its bookkeeping: the engine's result code
/// where there is one, and a message.
#[derive(Debug, Clone)]
pub struct VoicevoxError {
    pub code: Option<VoicevoxResultCode>,
    pub message: String,
}

/// The decimal notation of a signed number, with a leading minus sign
/// when it is negative.
pub open spec fn signed_decimal(n: int) -> Seq<char> {
    if n < 0 {
        seq!['-'] + decimal((-n) as nat)
    } else {
        decimal(n as nat)
    }
}

/// How an error reads: `VOICEVOX error c: message` when it carries a
/// result code `c`, else the message alone.
pub open spec fn error_text(code: Option<VoicevoxResultCode>, message: Seq<char>) -> Seq<char> {
    match code {
        Some(c) => "VOICEVOX error "@ + signed_decimal(c as int) + ": "@ + message,
        None => message,
    }
}

impl VoicevoxError {
    /// An error with a message and no result code.
    pub fn from_message(message: String) -> (e: Self)
        ensures
            e.code is None,
            e.message == message,
    {
        VoicevoxError { code: None, message }
    }

    /// The error of a result code; `message` is the engine's message for
    /// that code.
    pub fn from_code(code: VoicevoxResultCode, message: String) -> (e: Self)
        ensures
            e.code == Some(code),
            e.message == message,
    {
        VoicevoxError { code: Some(code), message }
    }

    /// The error as text, as `error_text` defines it.
    pub fn describe(&self) -> (text: String)
        ensures
            text@ == error_text(self.code, self.message@),
    {
        match self.code {
            Some(c) => {
                let mut text = String::from_str("VOICEVOX error ");
                if c < 0 {
                    proof { reveal_strlit("-"); }
                    text.append("-");
                    let n = decimal_text((0i64 - c as i64) as u64);
                    text.append(n.as_str());
                } else {
                    let n = decimal_text(c as u64);
                    text.append(n.as_str());
                }
                text.append(": ");
                text.append(self.message.as_str());
                text
            },
            None => self.message.clone(),
        }
    }
}

/// Turns a result code into a `Result`: success for `VOICEVOX_RESULT_OK`,
/// else the error of that code, whose message `message_of` gives (the
/// engine's message for the code). `message_of` is called only on failure.
pub fn check_result<F: Fn(VoicevoxResultCode) -> String>(code: VoicevoxResultCode, message_of: F) -> (r: Result<(), VoicevoxError>)
    requires
        code != VOICEVOX_RESULT_OK ==> message_of.requires((code,)),
    ensures
        r is Ok <==> code == VOICEVOX_RESULT_OK,
        r matches Err(e) ==> e.code == Some(code) && message_of.ensures((code,), e.message),
{
    if code == VOICEVOX_RESULT_OK {
        Ok(())
    } else {
        let message = message_of(code);
        Err(VoicevoxError::from_code(code, message))
    }
}

/// A voice model file that the synthesizer has loaded: its identifier,
/// the engine's handle of the open file, and the path it was read from.
pub struct LoadedModel<H> {
    pub id: VoiceModelId,
    pub model: H,
    pub path: String,
}

/// Whether some loaded model was read from `path`.
pub open spec fn has_path<H>(loaded: Seq<LoadedModel<H>>, path: Seq<char>) -> bool {
    exists|i: int| 0 <= i < loaded.len() && #[trigger] loaded[i].path@ == path
}

/// Whether the loaded model read from `path` has identifier `id`.
pub open spec fn path_has_id<H>(loaded: Seq<LoadedModel<H>>, path: Seq<char>, id: Seq<u8>) -> bool {
    exists|i: int| 0 <= i < loaded.len() && #[trigger] loaded[i].path@ == path && loaded[i].id@ == id
}

/// No two loaded models were read from the same path.
pub open spec fn paths_distinct<H>(loaded: Seq<LoadedModel<H>>) -> bool {
    forall|i: int, j: int|
        0 <= i < loaded.len() && 0 <= j < loaded.len() && i != j ==> #[trigger] loaded[i].path@ != #[trigger] loaded[j].path@
}

/// The first position of a loaded model with identifier `id`.
pub open spec fn is_first_with_id<H>(loaded: Seq<LoadedModel<H>>, id: Seq<u8>, index: int) -> bool {
    &&& 0 <= index < loaded.len()
    &&& loaded[index].id@ == id
    &&& forall|j: int| 0 <= j < index ==> #[trigger] loaded[j].id@ != id
}

/// Whether some loaded model has identifier `id`.
pub open spec fn has_id<H>(loaded: Seq<LoadedModel<H>>, id: Seq<u8>) -> bool {
    exists|i: int| 0 <= i < loaded.len() && #[trigger] loaded[i].id@ == id
}

/// The message of a lookup of an identifier that is not loaded.
pub open spec fn not_loaded_text() -> Seq<char> {
    "model_id is not loaded"@
}

/// Style `id`s, in order, each truncated to 32 bits as the engine numbers
/// styles, mapped to `path` unless an earlier entry claimed them: the map
/// `styles` after registering the styles `ids` of the model file at `path`.
pub open spec fn register_all(styles: Map<u32, String>, ids: Seq<u64>, path: String) -> Map<u32, String>
    decreases ids.len(),
{
    if ids.len() == 0 {
        styles
    } else {
        let before = register_all(styles, ids.drop_last(), path);
        let key = ids.last() as u32;
        if before.contains_key(key) {
            before
        } else {
            before.insert(key, path)
        }
    }
}

/// A JSON value, holding what the model metadata is read for: numbers
/// only as the unsigned integer they are, if they are one.
pub enum Json {
    Null,
    Bool(bool),
    Number(Option<u64>),
    Str(String),
    Array(Vec<Json>),
    Object(Vec<JsonMember>),
}

/// One member of a JSON object.
pub struct JsonMember {
    pub key: String,
    pub value: Json,
}

#[verifier::external_type_specification]
#[verifier::external_body]
pub struct ExJsonValue(serde_json::Value);

/// What `serde_json::from_str` makes of a text, taken as a value of
/// `serde_json::Value` and carried over into `Json`; on failure, the text
/// of serde_json's error.
pub uninterp spec fn parsed_json(text: Seq<char>) -> Result<Json, Seq<char>>;

/// Carries a `serde_json::Value` over into `Json`, variant for variant:
/// numbers become what `Number::as_u64` gives, arrays keep their order,
/// objects list their members in the map's order. Nothing is stated of
/// it here: the parse it follows, and this conversion with it, is named
/// by `parsed_json`.
#[verifier::external_body]
fn json_of_value(value: &serde_json::Value) -> Json {
    match value {
        serde_json::Value::Null => Json::Null,
        serde_json::Value::Bool(b) => Json::Bool(*b),
        serde_json::Value::Number(n) => Json::Number(n.as_u64()),
        serde_json::Value::String(s) => Json::Str(s.clone()),
        serde_json::Value::Array(items) => Json::Array(items.iter().map(json_of_value).collect()),
        serde_json::Value::Object(map) => Json::Object(
            map.iter().map(|(k, v)| JsonMember { key: k.clone(), value: json_of_value(v) }).collect(),
        ),
    }
}

/// `serde_json::from_str::<serde_json::Value>`: the JSON value that `text`
/// holds, or the text of the parse error. Its result is named `parsed_json`.
#[verifier::external_body]
fn parse_json(text: &str) -> (r: Result<Json, String>)
    ensures
        match r {
            Ok(v) => parsed_json(text@) == Ok::<Json, Seq<char>>(v),
            Err(e) => parsed_json(text@) == Err::<Json, Seq<char>>(e@),
        },
{
    match serde_json::from_str::<serde_json::Value>(text) {
        Ok(v) => Ok(json_of_value(&v)),
        Err(e) => Err(e.to_string()),
    }
}

/// The value of the first member named `key`.
pub open spec fn member_value(members: Seq<JsonMember>, key: Seq<char>) -> Option<Json>
    decreases members.len(),
{
    if members.len() == 0 {
        None
    } else if members[0].key@ == key {
        Some(members[0].value)
    } else {
        member_value(members.drop_first(), key)
    }
}

/// The member `key` of an object; nothing for any other value.
pub open spec fn json_get(value: Json, key: Seq<char>) -> Option<Json> {
    match value {
        Json::Object(members) => member_value(members@, key),
        _ => None,
    }
}

/// The `id` of a style entry, when it is an unsigned integer.
pub open spec fn style_entry_id(style: Json) -> Option<u64> {
    match json_get(style, "id"@) {
        Some(Json::Number(Some(n))) => Some(n),
        _ => None,
    }
}

/// The ids of a list of style entries, skipping entries without one.
pub open spec fn style_list_ids(styles: Seq<Json>) -> Seq<u64>
    decreases styles.len(),
{
    if styles.len() == 0 {
        Seq::empty()
    } else {
        let before = style_list_ids(styles.drop_last());
        match style_entry_id(styles.last()) {
            Some(n) => before.push(n),
            None => before,
        }
    }
}

/// The style ids of a speaker entry: those of its `styles` array, if any.
pub open spec fn speaker_style_ids(speaker: Json) -> Seq<u64> {
    match json_get(speaker, "styles"@) {
        Some(Json::Array(styles)) => style_list_ids(styles@),
        _ => Seq::empty(),
    }
}

/// The style ids of a list of speaker entries, speaker by speaker.
pub open spec fn speakers_style_ids(speakers: Seq<Json>) -> Seq<u64>
    decreases speakers.len(),
{
    if speakers.len() == 0 {
        Seq::empty()
    } else {
        speakers_style_ids(speakers.drop_last()) + speaker_style_ids(speakers.last())
    }
}

/// The style ids that a model file's `metas.json` declares: for each
/// speaker of the top-level array, the `id` of each entry of its `styles`.
pub open spec fn metas_style_ids(metas: Json) -> Seq<u64> {
    match metas {
        Json::Array(speakers) => speakers_style_ids(speakers@),
        _ => Seq::empty(),
    }
}

/// The member `key` of a JSON value, as `json_get` defines it.
fn get_member<'a>(value: &'a Json, key: &String) -> (member: Option<&'a Json>)
    ensures
        match member {
            Some(m) => json_get(*value, key@) == Some(*m),
            None => json_get(*value, key@) is None,
        },
{
    match value {
        Json::Object(members) => {
            assert(json_get(*value, key@) == member_value(members@, key@));
            let mut i: usize = 0;
            assert(members@.skip(0) =~= members@);
            while i < members.len()
                invariant
                    i <= members.len(),
                    json_get(*value, key@) == member_value(members@, key@),
                    member_value(members@, key@) == member_value(members@.skip(i as int), key@),
                decreases members.len() - i,
            {
                assert(members@.skip(i as int).drop_first() =~= members@.skip(i + 1));
                assert(members@.skip(i as int)[0] == members@[i as int]);
                if members[i].key == *key {
                    assert(member_value(members@.skip(i as int), key@) == Some(members@[i as int].value));
                    return Some(&members[i].value);
                }
                i = i + 1;
            }
            assert(members@.skip(i as int).len() == 0);
            None
        },
        _ => None,
    }
}

/// The style ids that `metas` declares, as `metas_style_ids` defines them.
pub fn style_ids_in_metas(metas: &Json) -> (ids: Vec<u64>)
    ensures
        ids@ == metas_style_ids(*metas),
{
    let mut ids: Vec<u64> = Vec::new();
    let styles_key = String::from_str("styles");
    let id_key = String::from_str("id");
    match metas {
        Json::Array(speakers) => {
            let mut i: usize = 0;
            while i < speakers.len()
                invariant
                    i <= speakers.len(),
                    styles_key@ == "styles"@,
                    id_key@ == "id"@,
                    ids@ == speakers_style_ids(speakers@.take(i as int)),
                decreases speakers.len() - i,
            {
                assert(speakers@.take(i + 1).drop_last() =~= speakers@.take(i as int));
                let ghost before = ids@;
                match get_member(&speakers[i], &styles_key) {
                    Some(Json::Array(styles)) => {
                        let mut j: usize = 0;
                        while j < styles.len()
                            invariant
                                j <= styles.len(),
                                id_key@ == "id"@,
                                ids@ == before + style_list_ids(styles@.take(j as int)),
                            decreases styles.len() - j,
                        {
                            assert(styles@.take(j + 1).drop_last() =~= styles@.take(j as int));
                            match get_member(&styles[j], &id_key) {
                                Some(Json::Number(Some(n))) => {
                                    ids.push(*n);
                                    assert(ids@ =~= before + style_list_ids(styles@.take(j + 1)));
                                },
                                _ => {
                                    assert(ids@ =~= before + style_list_ids(styles@.take(j + 1)));
                                },
                            }
                            j = j + 1;
                        }
                        assert(styles@.take(styles.len() as int) =~= styles@);
                    },
                    _ => {
                        assert(ids@ =~= before + Seq::<u64>::empty());
                    },
                }
                i = i + 1;
            }
            assert(speakers@.take(speakers.len() as int) =~= speakers@);
        },
        _ => {},
    }
    ids
}

/// Whether two model identifiers are the same.
fn same_id(a: &VoiceModelId, b: &VoiceModelId) -> (same: bool)
    ensures
        same == (a@ == b@),
{
    let mut i: usize = 0;
    while i < 16
        invariant
            i <= 16,
            a@.len() == 16,
            b@.len() == 16,
            forall|j: int| 0 <= j < i ==> a@[j] == b@[j],
        decreases 16 - i,
    {
        if a[i] != b[i] {
            return false;
        }
        i = i + 1;
    }
    assert(a@ =~= b@);
    true
}

/// What the engine still needs to do to speak in a style.
pub enum ModelStep {
    /// Scan the default model directory for model files first.
    ScanDefaultDir,
    /// Load the model file at this path (a no-op when it is loaded).
    Load(String),
    /// No model file is known to speak the style.
    Fail(VoicevoxError),
}

/// The engine's bookkeeping: the loaded voice model files (`H` is the
/// engine's handle of an open file), and the model file that speaks each
/// style. A path is loaded at most once.
pub struct ModelRegistry<H> {
    loaded_models: Vec<LoadedModel<H>>,
    style_to_model_path: HashMap<u32, String>,
}

impl<H> ModelRegistry<H> {
    /// The loaded models, in the order the registry keeps them.
    pub closed spec fn loaded(&self) -> Seq<LoadedModel<H>> {
        self.loaded_models@
    }

    /// The model file path of each known style.
    pub closed spec fn style_paths(&self) -> Map<u32, String> {
        self.style_to_model_path@
    }

    /// No path is loaded twice.
    #[verifier::type_invariant]
    closed spec fn paths_unique(&self) -> bool {
        paths_distinct(self.loaded_models@)
    }

    /// A registry with nothing loaded and no style known.
    pub fn new() -> (r: Self)
        ensures
            r.loaded() == Seq::<LoadedModel<H>>::empty(),
            r.style_paths() == Map::<u32, String>::empty(),
    {
        ModelRegistry { loaded_models: Vec::new(), style_to_model_path: HashMap::new() }
    }

    /// How many model files are loaded.
    pub fn loaded_count(&self) -> (n: usize)
        ensures
            n == self.loaded().len(),
    {
        self.loaded_models.len()
    }

    /// The identifier of the model loaded from `path`, if one is.
    pub fn loaded_id_for_path(&self, path: &str) -> (id: Option<VoiceModelId>)
        ensures
            paths_distinct(self.loaded()),
            match id {
                Some(i) => path_has_id(self.loaded(), path@, i@),
                None => !has_path(self.loaded(), path@),
            },
    {
        proof { use_type_invariant(self); }
        let wanted = path.to_owned();
        let mut i: usize = 0;
        while i < self.loaded_models.len()
            invariant
                i <= self.loaded_models@.len(),
                wanted@ == path@,
                paths_distinct(self.loaded()),
                forall|j: int| 0 <= j < i ==> #[trigger] self.loaded_models@[j].path@ != path@,
            decreases self.loaded_models@.len() - i,
        {
            if self.loaded_models[i].path == wanted {
                assert(self.loaded()[i as int].path@ == path@);
                return Some(self.loaded_models[i].id);
            }
            i = i + 1;
        }
        None
    }

    /// Records a model file that the synthesizer has just loaded from
    /// `path`, which no loaded model came from.
    pub fn record_loaded(&mut self, id: VoiceModelId, model: H, path: String)
        requires
            !has_path(old(self).loaded(), path@),
        ensures
            paths_distinct(final(self).loaded()),
            final(self).loaded() == old(self).loaded().push(LoadedModel { id, model, path }),
            final(self).style_paths() == old(self).style_paths(),
    {
        proof { use_type_invariant(&*self); }
        let mut models: Vec<LoadedModel<H>> = Vec::new();
        std::mem::swap(&mut models, &mut self.loaded_models);
        let ghost before = models@;
        let ghost path_view = path@;
        models.push(LoadedModel { id, model, path });
        assert forall|i: int, j: int|
            0 <= i < models@.len() && 0 <= j < models@.len() && i != j
            implies #[trigger] models@[i].path@ != #[trigger] models@[j].path@ by {
            if i == before.len() {
                assert(before[j].path@ != path_view);
            } else if j == before.len() {
                assert(before[i].path@ != path_view);
            }
        }
        self.loaded_models = models;
    }

    /// The position of the first loaded model with identifier `id`; an
    /// error "model_id is not loaded" when none has it.
    pub fn index_of_id(&self, id: &VoiceModelId) -> (r: Result<usize, VoicevoxError>)
        ensures
            match r {
                Ok(i) => is_first_with_id(self.loaded(), id@, i as int),
                Err(e) => !has_id(self.loaded(), id@) && e.code is None && e.message@ == not_loaded_text(),
            },
    {
        let mut i: usize = 0;
        while i < self.loaded_models.len()
            invariant
                i <= self.loaded_models@.len(),
                forall|j: int| 0 <= j < i ==> #[trigger] self.loaded_models@[j].id@ != id@,
            decreases self.loaded_models@.len() - i,
        {
            if same_id(&self.loaded_models[i].id, id) {
                return Ok(i);
            }
            i = i + 1;
        }
        Err(VoicevoxError::from_message(String::from_str("model_id is not loaded")))
    }

    /// The first loaded model with identifier `id`; an error "model_id is
    /// not loaded" when none has it.
    pub fn loaded_model(&self, id: &VoiceModelId) -> (r: Result<&LoadedModel<H>, VoicevoxError>)
        ensures
            match r {
                Ok(m) => exists|i: int| is_first_with_id(self.loaded(), id@, i) && *m == self.loaded()[i],
                Err(e) => !has_id(self.loaded(), id@) && e.code is None && e.message@ == not_loaded_text(),
            },
    {
        match self.index_of_id(id) {
            Ok(i) => Ok(&self.loaded_models[i]),
            Err(e) => Err(e),
        }
    }

    /// Takes the loaded model at `index` out of the registry, moving the
    /// last one into its place (the engine has just unloaded it).
    pub fn take_loaded(&mut self, index: usize) -> (m: LoadedModel<H>)
        requires
            index < old(self).loaded().len(),
        ensures
            paths_distinct(final(self).loaded()),
            m == old(self).loaded()[index as int],
            final(self).loaded() == old(self).loaded().update(index as int, old(self).loaded().last()).drop_last(),
            final(self).style_paths() == old(self).style_paths(),
    {
        proof { use_type_invariant(&*self); }
        let mut models: Vec<LoadedModel<H>> = Vec::new();
        std::mem::swap(&mut models, &mut self.loaded_models);
        let ghost before = models@;
        let m = models.swap_remove(index);
        let ghost after = models@;
        assert forall|i: int, j: int|
            0 <= i < after.len() && 0 <= j < after.len() && i != j
            implies #[trigger] after[i].path@ != #[trigger] after[j].path@ by {
            let bi = if i == index { before.len() - 1 } else { i };
            let bj = if j == index { before.len() - 1 } else { j };
            assert(after[i] == before[bi]);
            assert(after[j] == before[bj]);
        }
        self.loaded_models = models;
        m
    }

    /// Registers the styles that the model file at `path` declares in the
    /// text `metas_text` of its `metas.json`; when the text is no JSON, the
    /// error "failed to parse metas.json: ..." and nothing is registered.
    pub fn register_model_metas(&mut self, metas_text: &str, path: String) -> (r: Result<(), VoicevoxError>)
        ensures
            final(self).loaded() == old(self).loaded(),
            match parsed_json(metas_text@) {
                Ok(v) => r is Ok && final(self).style_paths() == register_all(
                    old(self).style_paths(),
                    metas_style_ids(v),
                    path,
                ),
                Err(m) => r matches Err(e) && e.code is None && e.message@ == "failed to parse metas.json: "@ + m
                    && final(self).style_paths() == old(self).style_paths(),
            },
    {
        match parse_json(metas_text) {
            Ok(metas) => {
                self.register_styles(&metas, path);
                Ok(())
            },
            Err(m) => {
                let mut text = String::from_str("failed to parse metas.json: ");
                text.append(m.as_str());
                Err(VoicevoxError::from_message(text))
            },
        }
    }

    /// Registers the styles that the model file at `path` declares in its
    /// metadata `metas`: each style not yet known is spoken by that file.
    pub fn register_styles(&mut self, metas: &Json, path: String)
        ensures
            final(self).loaded() == old(self).loaded(),
            final(self).style_paths() == register_all(old(self).style_paths(), metas_style_ids(*metas), path),
    {
        proof { use_type_invariant(&*self); }
        let ids = style_ids_in_metas(metas);
        let owned = path;
        let mut styles: HashMap<u32, String> = HashMap::new();
        std::mem::swap(&mut styles, &mut self.style_to_model_path);
        let ghost start = styles@;
        let mut i: usize = 0;
        while i < ids.len()
            invariant
                i <= ids@.len(),
                start == old(self).style_to_model_path@,
                styles@ == register_all(start, ids@.take(i as int), owned),
            decreases ids@.len() - i,
        {
            assert(ids@.take(i + 1).drop_last() =~= ids@.take(i as int));
            let key = ids[i] as u32;
            if !styles.contains_key(&key) {
                styles.insert(key, owned.clone());
            }
            i = i + 1;
        }
        self.style_to_model_path = styles;
        assert(ids@.take(ids@.len() as int) =~= ids@);
    }

    /// The next step towards speaking in `style_id`: load the model file
    /// known to speak it; when none is known, scan the default model
    /// directory first, and after that scan (`scanned`), give up with
    /// "no model found for style_id=n".
    pub fn ensure_model_for_style(&self, style_id: u32, scanned: bool) -> (step: ModelStep)
        ensures
            match step {
                ModelStep::Load(p) => self.style_paths().contains_key(style_id) && p == self.style_paths()[style_id],
                ModelStep::ScanDefaultDir => !self.style_paths().contains_key(style_id) && !scanned,
                ModelStep::Fail(e) => !self.style_paths().contains_key(style_id) && scanned && e.code is None
                    && e.message@ == "no model found for style_id="@ + decimal(style_id as nat),
            },
    {
        match self.style_to_model_path.get(&style_id) {
            Some(p) => ModelStep::Load(p.clone()),
            None => {
                if !scanned {
                    ModelStep::ScanDefaultDir
                } else {
                    let mut text = String::from_str("no model found for style_id=");
                    let n = decimal_text(style_id as u64);
                    text.append(n.as_str());
                    ModelStep::Fail(VoicevoxError::from_message(text))
                }
            },
        }
    }
}

/// Registering the styles of a model file never changes the file of a
/// style that was already known; afterwards every declared style is known;
/// and each style that became known is spoken by that file.
pub proof fn lemma_register_first_wins(styles: Map<u32, String>, ids: Seq<u64>, path: String)
    ensures
        forall|k: u32| #[trigger] styles.contains_key(k) ==> register_all(styles, ids, path).contains_key(k)
            && register_all(styles, ids, path)[k] == styles[k],
        forall|i: int| 0 <= i < ids.len() ==> register_all(styles, ids, path).contains_key(#[trigger] ids[i] as u32),
        forall|k: u32| #[trigger] register_all(styles, ids, path).contains_key(k) && !styles.contains_key(k)
            ==> register_all(styles, ids, path)[k] == path,
    decreases ids.len(),
{
    if ids.len() > 0 {
        lemma_register_first_wins(styles, ids.drop_last(), path);
        assert forall|i: int| 0 <= i < ids.len() implies register_all(styles, ids, path).contains_key(#[trigger] ids[i] as u32) by {
            if i < ids.len() - 1 {
                assert(ids.drop_last()[i] == ids[i]);
            }
        }
        let before = register_all(styles, ids.drop_last(), path);
        assert forall|k: u32| #[trigger] register_all(styles, ids, path).contains_key(k) && !styles.contains_key(k)
            implies register_all(styles, ids, path)[k] == path by {
            if before.contains_key(k) {
                assert(before[k] == path);
            }
        }
    }
}

/// After a model file is recorded as loaded from a path no other loaded
/// model came from, looking that path up finds exactly its identifier, and
/// still no path is loaded twice.
pub proof fn lemma_lookup_after_record<H>(loaded: Seq<LoadedModel<H>>, model: LoadedModel<H>, other: Seq<u8>)
    requires
        paths_distinct(loaded),
        !has_path(loaded, model.path@),
    ensures
        paths_distinct(loaded.push(model)),
        path_has_id(loaded.push(model), model.path@, model.id@),
        path_has_id(loaded.push(model), model.path@, other) ==> other == model.id@,
{
    let after = loaded.push(model);
    assert(after[loaded.len() as int] == model);
    assert forall|i: int, j: int| 0 <= i < after.len() && 0 <= j < after.len() && i != j
        implies #[trigger] after[i].path@ != #[trigger] after[j].path@ by {
        if i == loaded.len() {
            assert(after[j] == loaded[j]);
        } else if j == loaded.len() {
            assert(after[i] == loaded[i]);
        } else {
            assert(after[i] == loaded[i]);
            assert(after[j] == loaded[j]);
        }
    }
    if path_has_id(after, model.path@, other) {
        let i = choose|i: int| 0 <= i < after.len() && #[trigger] after[i].path@ == model.path@ && after[i].id@ == other;
        if i != loaded.len() {
            assert(after[i] == loaded[i]);
        }
    }
}

/// Checks that `value` can become a C string, as `CString::new` demands:
/// none of its bytes is 0. Otherwise the error "`what` contains NUL byte".
pub fn nul_free(value: &str, what: &str) -> (r: Result<(), VoicevoxError>)
    ensures
        r is Ok <==> !value.spec_bytes().contains(0u8),
        r matches Err(e) ==> e.code is None && e.message@ == what@ + " contains NUL byte"@,
{
    let bytes = value.as_bytes();
    let mut i: usize = 0;
    while i < bytes.len()
        invariant
            i <= bytes@.len(),
            bytes@ == value.spec_bytes(),
            forall|j: int| 0 <= j < i ==> bytes@[j] != 0u8,
        decreases bytes@.len() - i,
    {
        if bytes[i] == 0u8 {
            let mut text = what.to_owned();
            text.append(" contains NUL byte");
            return Err(VoicevoxError::from_message(text));
        }
        i = i + 1;
    }
    Ok(())
}


/// The style map after registering, in turn, the styles `files[i].0` of
/// the model file at path `files[i].1`.
pub open spec fn register_files(styles: Map<u32, String>, files: Seq<(Seq<u64>, String)>) -> Map<u32, String>
    decreases files.len(),
{
    if files.len() == 0 {
        styles
    } else {
        register_all(register_files(styles, files.drop_last()), files.last().0, files.last().1)
    }
}

/// Getting a style ready to speak (scanning model files for their styles,
/// then recording the model file it loads) only adds entries: no style
/// that was known changes its file, and every loaded model stays loaded
/// where it was.
pub proof fn lemma_preparing_only_adds<H>(
    styles: Map<u32, String>,
    files: Seq<(Seq<u64>, String)>,
    loaded: Seq<LoadedModel<H>>,
    model: LoadedModel<H>,
)
    ensures
        forall|k: u32| #[trigger] styles.contains_key(k) ==> register_files(styles, files).contains_key(k)
            && register_files(styles, files)[k] == styles[k],
        loaded.push(model).subrange(0, loaded.len() as int) == loaded,
    decreases files.len(),
{
    if files.len() > 0 {
        lemma_preparing_only_adds(styles, files.drop_last(), loaded, model);
        lemma_register_first_wins(register_files(styles, files.drop_last()), files.last().0, files.last().1);
    }
    assert(loaded.push(model).subrange(0, loaded.len() as int) =~= loaded);
}

} // verus!
