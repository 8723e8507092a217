use vstd::prelude::*;
use crate::component::{
    kind_from_name, kind_is_persistent, kind_name, lemma_kind_names_distinct, Component,
    ComponentKind, ComponentView,
};
use crate::comps::{
    texts, Animation, AppearanceBuilder, AppearanceBuilderView, ApplyForce, Assemblaged,
    AssemblagedView, BoxOutline, CameraFocus, EmitCollideEvent, EmitCollideEventView, Explodeable,
    Health, Hitbox, Interactable, InteractableView, MovementControls, ScriptEvent,
    ScriptEventView, ScriptingIds, ScriptingIdsView,
};
use crate::json::{
    dec_bool, dec_int, dec_scalar, dec_text, dec_texts, dec_vec2, dec_vec3, dec_vec4, enc_int,
    enc_scalar, enc_texts, enc_vec2, enc_vec3, enc_vec4, field, lemma_lookup_hit, Json, JsonView,
    Member,
};
use crate::scalar::{Scalar, Vec2, Vec3, Vec4};

verus! {

/// The member `key` of `j`, read as a real.
pub open spec fn field_scalar(j: JsonView, key: Seq<char>) -> Option<Scalar> {
    match field(j, key) {
        Some(v) => dec_scalar(v),
        None => None,
    }
}

/// The member `key` of `j`, read as a pair of reals.
pub open spec fn field_vec2(j: JsonView, key: Seq<char>) -> Option<Vec2> {
    match field(j, key) {
        Some(v) => dec_vec2(v),
        None => None,
    }
}

/// The member `key` of `j`, read as a triple of reals.
pub open spec fn field_vec3(j: JsonView, key: Seq<char>) -> Option<Vec3> {
    match field(j, key) {
        Some(v) => dec_vec3(v),
        None => None,
    }
}

/// The member `key` of `j`, read as four reals.
pub open spec fn field_vec4(j: JsonView, key: Seq<char>) -> Option<Vec4> {
    match field(j, key) {
        Some(v) => dec_vec4(v),
        None => None,
    }
}

/// The member `key` of `j`, read as a truth value.
pub open spec fn field_bool(j: JsonView, key: Seq<char>) -> Option<bool> {
    match field(j, key) {
        Some(v) => dec_bool(v),
        None => None,
    }
}

/// The member `key` of `j`, read as an integer in `lo ..= hi`.
pub open spec fn field_int(j: JsonView, key: Seq<char>, lo: int, hi: int) -> Option<int> {
    match field(j, key) {
        Some(v) => dec_int(v, lo, hi),
        None => None,
    }
}

/// The member `key` of `j`, read as a text.
pub open spec fn field_text(j: JsonView, key: Seq<char>) -> Option<Seq<char>> {
    match field(j, key) {
        Some(v) => dec_text(v),
        None => None,
    }
}

/// The member `key` of `j`, read as a list of texts.
pub open spec fn field_texts(j: JsonView, key: Seq<char>) -> Option<Seq<Seq<char>>> {
    match field(j, key) {
        Some(v) => dec_texts(v),
        None => None,
    }
}

/// Reading back a written list of texts gives the same list.
pub proof fn lemma_texts_roundtrip(ts: Seq<Seq<char>>)
    ensures
        dec_texts(enc_texts(ts)) == Some(ts),
{
    let items = enc_texts(ts)->List_0;
    assert(dec_texts(enc_texts(ts))->0 =~= ts);
}

fn get_scalar(j: &Json, key: &str) -> (r: Option<Scalar>)
    ensures
        r == field_scalar(j@, key@),
{
    match j.get(key) {
        Some(v) => v.as_scalar(),
        None => None,
    }
}

fn get_vec2(j: &Json, key: &str) -> (r: Option<Vec2>)
    ensures
        r == field_vec2(j@, key@),
{
    match j.get(key) {
        Some(v) => v.as_vec2(),
        None => None,
    }
}

fn get_vec3(j: &Json, key: &str) -> (r: Option<Vec3>)
    ensures
        r == field_vec3(j@, key@),
{
    match j.get(key) {
        Some(v) => v.as_vec3(),
        None => None,
    }
}

fn get_vec4(j: &Json, key: &str) -> (r: Option<Vec4>)
    ensures
        r == field_vec4(j@, key@),
{
    match j.get(key) {
        Some(v) => v.as_vec4(),
        None => None,
    }
}

fn get_bool(j: &Json, key: &str) -> (r: Option<bool>)
    ensures
        r == field_bool(j@, key@),
{
    match j.get(key) {
        Some(v) => v.as_bool(),
        None => None,
    }
}

fn get_int(j: &Json, key: &str, lo: i64, hi: i64) -> (r: Option<i64>)
    ensures
        match r {
            Some(v) => field_int(j@, key@, lo as int, hi as int) == Some(v as int),
            None => field_int(j@, key@, lo as int, hi as int) is None,
        },
{
    match j.get(key) {
        Some(v) => v.as_int(lo, hi),
        None => None,
    }
}

fn get_text(j: &Json, key: &str) -> (r: Option<String>)
    ensures
        match r {
            Some(t) => field_text(j@, key@) == Some(t@),
            None => field_text(j@, key@) is None,
        },
{
    match j.get(key) {
        Some(v) => v.as_text(),
        None => None,
    }
}

fn get_texts(j: &Json, key: &str) -> (r: Option<Vec<String>>)
    ensures
        match r {
            Some(ts) => field_texts(j@, key@) == Some(texts(ts@)),
            None => field_texts(j@, key@) is None,
        },
{
    match j.get(key) {
        Some(v) => v.as_texts(),
        None => None,
    }
}

/// The JSON object that stands for an assemblage tag: one member for each field, in the
/// order of declaration.
pub open spec fn assemblaged_to_json(c: AssemblagedView) -> JsonView {
    JsonView::Object(
        seq![
            ("built_from"@, JsonView::Text(c.built_from)),
        ],
    )
}

/// The Assemblaged that a JSON object stands for: each field read from the first
/// member of its name. `None` where a field is missing or has another shape.
pub open spec fn assemblaged_from_json(j: JsonView) -> Option<AssemblagedView> {
    if field_text(j, "built_from"@) is Some {
        Some(
            AssemblagedView {
                built_from: field_text(j, "built_from"@)->0,
            },
        )
    } else {
        None
    }
}

/// The member `key` of `j`, read as an assemblage tag.
pub open spec fn field_assemblaged(j: JsonView, key: Seq<char>) -> Option<AssemblagedView> {
    match field(j, key) {
        Some(v) => assemblaged_from_json(v),
        None => None,
    }
}

/// Reading back what was written for an assemblage tag gives the same value.
pub proof fn lemma_assemblaged_roundtrip(c: AssemblagedView)
    ensures
        assemblaged_from_json(assemblaged_to_json(c)) == Some(c),
{
    reveal_strlit("built_from");
    let ms = assemblaged_to_json(c)->Object_0;
    lemma_lookup_hit(ms, "built_from"@, 0, 0);
}

impl Assemblaged {
    /// This value as a JSON object.
    pub fn to_json(&self) -> (j: Json)
        ensures
            j@ == assemblaged_to_json(self@),
    {
        let mut ms: Vec<Member> = Vec::new();
        ms.push(Member::new("built_from", Json::text(self.built_from.as_str())));
        let j = Json::object(ms);
        assert(j@->Object_0 =~= assemblaged_to_json(self@)->Object_0);
        j
    }

    /// The value that a JSON object stands for.
    pub fn from_json(j: &Json) -> (r: Option<Assemblaged>)
        ensures
            match r {
                Some(c) => assemblaged_from_json(j@) == Some(c@),
                None => assemblaged_from_json(j@) is None,
            },
    {
        let built_from = match get_text(j, "built_from") {
            Some(v) => v,
            None => {
                return None;
            },
        };
        Some(Assemblaged { built_from })
    }
}

/// The JSON object that stands for a script event: one member for each field, in the
/// order of declaration.
pub open spec fn script_event_to_json(c: ScriptEventView) -> JsonView {
    JsonView::Object(
        seq![
            ("function"@, JsonView::Text(c.function)),
            ("payload"@, enc_int(c.payload as int)),
        ],
    )
}

/// The ScriptEvent that a JSON object stands for: each field read from the first
/// member of its name. `None` where a field is missing or has another shape.
pub open spec fn script_event_from_json(j: JsonView) -> Option<ScriptEventView> {
    if field_text(j, "function"@) is Some
        && field_int(j, "payload"@, 0, u32::MAX as int) is Some {
        Some(
            ScriptEventView {
                function: field_text(j, "function"@)->0,
                payload: (field_int(j, "payload"@, 0, u32::MAX as int)->0) as u32,
            },
        )
    } else {
        None
    }
}

/// The member `key` of `j`, read as a script event.
pub open spec fn field_script_event(j: JsonView, key: Seq<char>) -> Option<ScriptEventView> {
    match field(j, key) {
        Some(v) => script_event_from_json(v),
        None => None,
    }
}

/// Reading back what was written for a script event gives the same value.
pub proof fn lemma_script_event_roundtrip(c: ScriptEventView)
    ensures
        script_event_from_json(script_event_to_json(c)) == Some(c),
{
    reveal_strlit("function");
    reveal_strlit("payload");
    let ms = script_event_to_json(c)->Object_0;
    lemma_lookup_hit(ms, "function"@, 0, 0);
    assert("function"@.len() != "payload"@.len());
    lemma_lookup_hit(ms, "payload"@, 0, 1);
}

impl ScriptEvent {
    /// This value as a JSON object.
    pub fn to_json(&self) -> (j: Json)
        ensures
            j@ == script_event_to_json(self@),
    {
        let mut ms: Vec<Member> = Vec::new();
        ms.push(Member::new("function", Json::text(self.function.as_str())));
        ms.push(Member::new("payload", Json::integer(self.payload as i64)));
        let j = Json::object(ms);
        assert(j@->Object_0 =~= script_event_to_json(self@)->Object_0);
        j
    }

    /// The value that a JSON object stands for.
    pub fn from_json(j: &Json) -> (r: Option<ScriptEvent>)
        ensures
            match r {
                Some(c) => script_event_from_json(j@) == Some(c@),
                None => script_event_from_json(j@) is None,
            },
    {
        let function = match get_text(j, "function") {
            Some(v) => v,
            None => {
                return None;
            },
        };
        let payload = match get_int(j, "payload", 0, 0xFFFF_FFFF) {
            Some(v) => v as u32,
            None => {
                return None;
            },
        };
        Some(ScriptEvent { function, payload })
    }
}

/// The JSON object that stands for an interactable: one member for each field, in the
/// order of declaration.
pub open spec fn interactable_to_json(c: InteractableView) -> JsonView {
    JsonView::Object(
        seq![
            ("script"@, script_event_to_json(c.script)),
        ],
    )
}

/// The Interactable that a JSON object stands for: each field read from the first
/// member of its name. `None` where a field is missing or has another shape.
pub open spec fn interactable_from_json(j: JsonView) -> Option<InteractableView> {
    if field_script_event(j, "script"@) is Some {
        Some(
            InteractableView {
                script: field_script_event(j, "script"@)->0,
            },
        )
    } else {
        None
    }
}

/// The member `key` of `j`, read as an interactable.
pub open spec fn field_interactable(j: JsonView, key: Seq<char>) -> Option<InteractableView> {
    match field(j, key) {
        Some(v) => interactable_from_json(v),
        None => None,
    }
}

/// Reading back what was written for an interactable gives the same value.
pub proof fn lemma_interactable_roundtrip(c: InteractableView)
    ensures
        interactable_from_json(interactable_to_json(c)) == Some(c),
{
    reveal_strlit("script");
    let ms = interactable_to_json(c)->Object_0;
    lemma_lookup_hit(ms, "script"@, 0, 0);
    lemma_script_event_roundtrip(c.script);
}

impl Interactable {
    /// This value as a JSON object.
    pub fn to_json(&self) -> (j: Json)
        ensures
            j@ == interactable_to_json(self@),
    {
        let mut ms: Vec<Member> = Vec::new();
        ms.push(Member::new("script", self.script.to_json()));
        let j = Json::object(ms);
        assert(j@->Object_0 =~= interactable_to_json(self@)->Object_0);
        j
    }

    /// The value that a JSON object stands for.
    pub fn from_json(j: &Json) -> (r: Option<Interactable>)
        ensures
            match r {
                Some(c) => interactable_from_json(j@) == Some(c@),
                None => interactable_from_json(j@) is None,
            },
    {
        let script = match match j.get("script") {
            Some(inner) => ScriptEvent::from_json(inner),
            None => None,
        } {
            Some(v) => v,
            None => {
                return None;
            },
        };
        Some(Interactable { script })
    }
}

/// The JSON object that stands for a collision hook: one member for each field, in the
/// order of declaration.
pub open spec fn emit_collide_event_to_json(c: EmitCollideEventView) -> JsonView {
    JsonView::Object(
        seq![
            ("script"@, script_event_to_json(c.script)),
        ],
    )
}

/// The EmitCollideEvent that a JSON object stands for: each field read from the first
/// member of its name. `None` where a field is missing or has another shape.
pub open spec fn emit_collide_event_from_json(j: JsonView) -> Option<EmitCollideEventView> {
    if field_script_event(j, "script"@) is Some {
        Some(
            EmitCollideEventView {
                script: field_script_event(j, "script"@)->0,
            },
        )
    } else {
        None
    }
}

/// The member `key` of `j`, read as a collision hook.
pub open spec fn field_emit_collide_event(j: JsonView, key: Seq<char>) -> Option<EmitCollideEventView> {
    match field(j, key) {
        Some(v) => emit_collide_event_from_json(v),
        None => None,
    }
}

/// Reading back what was written for a collision hook gives the same value.
pub proof fn lemma_emit_collide_event_roundtrip(c: EmitCollideEventView)
    ensures
        emit_collide_event_from_json(emit_collide_event_to_json(c)) == Some(c),
{
    reveal_strlit("script");
    let ms = emit_collide_event_to_json(c)->Object_0;
    lemma_lookup_hit(ms, "script"@, 0, 0);
    lemma_script_event_roundtrip(c.script);
}

impl EmitCollideEvent {
    /// This value as a JSON object.
    pub fn to_json(&self) -> (j: Json)
        ensures
            j@ == emit_collide_event_to_json(self@),
    {
        let mut ms: Vec<Member> = Vec::new();
        ms.push(Member::new("script", self.script.to_json()));
        let j = Json::object(ms);
        assert(j@->Object_0 =~= emit_collide_event_to_json(self@)->Object_0);
        j
    }

    /// The value that a JSON object stands for.
    pub fn from_json(j: &Json) -> (r: Option<EmitCollideEvent>)
        ensures
            match r {
                Some(c) => emit_collide_event_from_json(j@) == Some(c@),
                None => emit_collide_event_from_json(j@) is None,
            },
    {
        let script = match match j.get("script") {
            Some(inner) => ScriptEvent::from_json(inner),
            None => None,
        } {
            Some(v) => v,
            None => {
                return None;
            },
        };
        Some(EmitCollideEvent { script })
    }
}

/// The JSON object that stands for a list of scripting ids: one member for each field, in the
/// order of declaration.
pub open spec fn scripting_ids_to_json(c: ScriptingIdsView) -> JsonView {
    JsonView::Object(
        seq![
            ("ids"@, enc_texts(c.ids)),
        ],
    )
}

/// The ScriptingIds that a JSON object stands for: each field read from the first
/// member of its name. `None` where a field is missing or has another shape.
pub open spec fn scripting_ids_from_json(j: JsonView) -> Option<ScriptingIdsView> {
    if field_texts(j, "ids"@) is Some {
        Some(
            ScriptingIdsView {
                ids: field_texts(j, "ids"@)->0,
            },
        )
    } else {
        None
    }
}

/// The member `key` of `j`, read as a list of scripting ids.
pub open spec fn field_scripting_ids(j: JsonView, key: Seq<char>) -> Option<ScriptingIdsView> {
    match field(j, key) {
        Some(v) => scripting_ids_from_json(v),
        None => None,
    }
}

/// Reading back what was written for a list of scripting ids gives the same value.
pub proof fn lemma_scripting_ids_roundtrip(c: ScriptingIdsView)
    ensures
        scripting_ids_from_json(scripting_ids_to_json(c)) == Some(c),
{
    reveal_strlit("ids");
    let ms = scripting_ids_to_json(c)->Object_0;
    lemma_lookup_hit(ms, "ids"@, 0, 0);
    lemma_texts_roundtrip(c.ids);
}

impl ScriptingIds {
    /// This value as a JSON object.
    pub fn to_json(&self) -> (j: Json)
        ensures
            j@ == scripting_ids_to_json(self@),
    {
        let mut ms: Vec<Member> = Vec::new();
        ms.push(Member::new("ids", Json::texts(&self.ids)));
        let j = Json::object(ms);
        assert(j@->Object_0 =~= scripting_ids_to_json(self@)->Object_0);
        j
    }

    /// The value that a JSON object stands for.
    pub fn from_json(j: &Json) -> (r: Option<ScriptingIds>)
        ensures
            match r {
                Some(c) => scripting_ids_from_json(j@) == Some(c@),
                None => scripting_ids_from_json(j@) is None,
            },
    {
        let ids = match get_texts(j, "ids") {
            Some(v) => v,
            None => {
                return None;
            },
        };
        Some(ScriptingIds { ids })
    }
}

/// The JSON object that stands for an appearance builder: one member for each field, in the
/// order of declaration.
pub open spec fn appearance_builder_to_json(c: AppearanceBuilderView) -> JsonView {
    JsonView::Object(
        seq![
            ("image_name"@, JsonView::Text(c.image_name)),
            ("uv_adjust"@, enc_vec2(c.uv_adjust)),
            ("size_override"@, enc_vec2(c.size_override)),
            ("built"@, JsonView::Bool(c.built)),
        ],
    )
}

/// The AppearanceBuilder that a JSON object stands for: each field read from the first
/// member of its name. `None` where a field is missing or has another shape.
pub open spec fn appearance_builder_from_json(j: JsonView) -> Option<AppearanceBuilderView> {
    if field_text(j, "image_name"@) is Some
        && field_vec2(j, "uv_adjust"@) is Some
        && field_vec2(j, "size_override"@) is Some
        && field_bool(j, "built"@) is Some {
        Some(
            AppearanceBuilderView {
                image_name: field_text(j, "image_name"@)->0,
                uv_adjust: field_vec2(j, "uv_adjust"@)->0,
                size_override: field_vec2(j, "size_override"@)->0,
                built: field_bool(j, "built"@)->0,
            },
        )
    } else {
        None
    }
}

/// The member `key` of `j`, read as an appearance builder.
pub open spec fn field_appearance_builder(j: JsonView, key: Seq<char>) -> Option<AppearanceBuilderView> {
    match field(j, key) {
        Some(v) => appearance_builder_from_json(v),
        None => None,
    }
}

/// Reading back what was written for an appearance builder gives the same value.
pub proof fn lemma_appearance_builder_roundtrip(c: AppearanceBuilderView)
    ensures
        appearance_builder_from_json(appearance_builder_to_json(c)) == Some(c),
{
    reveal_strlit("image_name");
    reveal_strlit("uv_adjust");
    reveal_strlit("size_override");
    reveal_strlit("built");
    let ms = appearance_builder_to_json(c)->Object_0;
    lemma_lookup_hit(ms, "image_name"@, 0, 0);
    assert("image_name"@.len() != "uv_adjust"@.len());
    lemma_lookup_hit(ms, "uv_adjust"@, 0, 1);
    assert("image_name"@.len() != "size_override"@.len());
    assert("uv_adjust"@.len() != "size_override"@.len());
    lemma_lookup_hit(ms, "size_override"@, 0, 2);
    assert("image_name"@.len() != "built"@.len());
    assert("uv_adjust"@.len() != "built"@.len());
    assert("size_override"@.len() != "built"@.len());
    lemma_lookup_hit(ms, "built"@, 0, 3);
}

impl AppearanceBuilder {
    /// This value as a JSON object.
    pub fn to_json(&self) -> (j: Json)
        ensures
            j@ == appearance_builder_to_json(self@),
    {
        let mut ms: Vec<Member> = Vec::new();
        ms.push(Member::new("image_name", Json::text(self.image_name.as_str())));
        ms.push(Member::new("uv_adjust", Json::vec2(self.uv_adjust)));
        ms.push(Member::new("size_override", Json::vec2(self.size_override)));
        ms.push(Member::new("built", Json::Bool(self.built)));
        let j = Json::object(ms);
        assert(j@->Object_0 =~= appearance_builder_to_json(self@)->Object_0);
        j
    }

    /// The value that a JSON object stands for.
    pub fn from_json(j: &Json) -> (r: Option<AppearanceBuilder>)
        ensures
            match r {
                Some(c) => appearance_builder_from_json(j@) == Some(c@),
                None => appearance_builder_from_json(j@) is None,
            },
    {
        let image_name = match get_text(j, "image_name") {
            Some(v) => v,
            None => {
                return None;
            },
        };
        let uv_adjust = match get_vec2(j, "uv_adjust") {
            Some(v) => v,
            None => {
                return None;
            },
        };
        let size_override = match get_vec2(j, "size_override") {
            Some(v) => v,
            None => {
                return None;
            },
        };
        let built = match get_bool(j, "built") {
            Some(v) => v,
            None => {
                return None;
            },
        };
        Some(AppearanceBuilder { image_name, uv_adjust, size_override, built })
    }
}

/// The JSON object that stands for an animation: one member for each field, in the
/// order of declaration.
pub open spec fn animation_to_json(c: Animation) -> JsonView {
    JsonView::Object(
        seq![
            ("frame_count"@, enc_int(c.frame_count as int)),
            ("fps"@, enc_scalar(c.fps)),
        ],
    )
}

/// The Animation that a JSON object stands for: each field read from the first
/// member of its name. `None` where a field is missing or has another shape.
pub open spec fn animation_from_json(j: JsonView) -> Option<Animation> {
    if field_int(j, "frame_count"@, i32::MIN as int, i32::MAX as int) is Some
        && field_scalar(j, "fps"@) is Some {
        Some(
            Animation {
                frame_count: (field_int(j, "frame_count"@, i32::MIN as int, i32::MAX as int)->0) as i32,
                fps: field_scalar(j, "fps"@)->0,
            },
        )
    } else {
        None
    }
}

/// The member `key` of `j`, read as an animation.
pub open spec fn field_animation(j: JsonView, key: Seq<char>) -> Option<Animation> {
    match field(j, key) {
        Some(v) => animation_from_json(v),
        None => None,
    }
}

/// Reading back what was written for an animation gives the same value.
pub proof fn lemma_animation_roundtrip(c: Animation)
    ensures
        animation_from_json(animation_to_json(c)) == Some(c),
{
    reveal_strlit("frame_count");
    reveal_strlit("fps");
    let ms = animation_to_json(c)->Object_0;
    lemma_lookup_hit(ms, "frame_count"@, 0, 0);
    assert("frame_count"@.len() != "fps"@.len());
    lemma_lookup_hit(ms, "fps"@, 0, 1);
}

impl Animation {
    /// This value as a JSON object.
    pub fn to_json(&self) -> (j: Json)
        ensures
            j@ == animation_to_json(*self),
    {
        let mut ms: Vec<Member> = Vec::new();
        ms.push(Member::new("frame_count", Json::integer(self.frame_count as i64)));
        ms.push(Member::new("fps", Json::scalar(self.fps)));
        let j = Json::object(ms);
        assert(j@->Object_0 =~= animation_to_json(*self)->Object_0);
        j
    }

    /// The value that a JSON object stands for.
    pub fn from_json(j: &Json) -> (r: Option<Animation>)
        ensures
            r == animation_from_json(j@),
    {
        let frame_count = match get_int(j, "frame_count", -0x8000_0000, 0x7FFF_FFFF) {
            Some(v) => v as i32,
            None => {
                return None;
            },
        };
        let fps = match get_scalar(j, "fps") {
            Some(v) => v,
            None => {
                return None;
            },
        };
        Some(Animation { frame_count, fps })
    }
}

/// The JSON object that stands for a camera focus: one member for each field, in the
/// order of declaration.
pub open spec fn camera_focus_to_json(c: CameraFocus) -> JsonView {
    JsonView::Object(
        seq![
            ("background_color"@, enc_vec4(c.background_color)),
            ("zoom"@, enc_scalar(c.zoom)),
            ("interpolation_speed"@, enc_scalar(c.interpolation_speed)),
        ],
    )
}

/// The CameraFocus that a JSON object stands for: each field read from the first
/// member of its name. `None` where a field is missing or has another shape.
pub open spec fn camera_focus_from_json(j: JsonView) -> Option<CameraFocus> {
    if field_vec4(j, "background_color"@) is Some
        && field_scalar(j, "zoom"@) is Some
        && field_scalar(j, "interpolation_speed"@) is Some {
        Some(
            CameraFocus {
                background_color: field_vec4(j, "background_color"@)->0,
                zoom: field_scalar(j, "zoom"@)->0,
                interpolation_speed: field_scalar(j, "interpolation_speed"@)->0,
            },
        )
    } else {
        None
    }
}

/// The member `key` of `j`, read as a camera focus.
pub open spec fn field_camera_focus(j: JsonView, key: Seq<char>) -> Option<CameraFocus> {
    match field(j, key) {
        Some(v) => camera_focus_from_json(v),
        None => None,
    }
}

/// Reading back what was written for a camera focus gives the same value.
pub proof fn lemma_camera_focus_roundtrip(c: CameraFocus)
    ensures
        camera_focus_from_json(camera_focus_to_json(c)) == Some(c),
{
    reveal_strlit("background_color");
    reveal_strlit("zoom");
    reveal_strlit("interpolation_speed");
    let ms = camera_focus_to_json(c)->Object_0;
    lemma_lookup_hit(ms, "background_color"@, 0, 0);
    assert("background_color"@.len() != "zoom"@.len());
    lemma_lookup_hit(ms, "zoom"@, 0, 1);
    assert("background_color"@.len() != "interpolation_speed"@.len());
    assert("zoom"@.len() != "interpolation_speed"@.len());
    lemma_lookup_hit(ms, "interpolation_speed"@, 0, 2);
}

impl CameraFocus {
    /// This value as a JSON object.
    pub fn to_json(&self) -> (j: Json)
        ensures
            j@ == camera_focus_to_json(*self),
    {
        let mut ms: Vec<Member> = Vec::new();
        ms.push(Member::new("background_color", Json::vec4(self.background_color)));
        ms.push(Member::new("zoom", Json::scalar(self.zoom)));
        ms.push(Member::new("interpolation_speed", Json::scalar(self.interpolation_speed)));
        let j = Json::object(ms);
        assert(j@->Object_0 =~= camera_focus_to_json(*self)->Object_0);
        j
    }

    /// The value that a JSON object stands for.
    pub fn from_json(j: &Json) -> (r: Option<CameraFocus>)
        ensures
            r == camera_focus_from_json(j@),
    {
        let background_color = match get_vec4(j, "background_color") {
            Some(v) => v,
            None => {
                return None;
            },
        };
        let zoom = match get_scalar(j, "zoom") {
            Some(v) => v,
            None => {
                return None;
            },
        };
        let interpolation_speed = match get_scalar(j, "interpolation_speed") {
            Some(v) => v,
            None => {
                return None;
            },
        };
        Some(CameraFocus { background_color, zoom, interpolation_speed })
    }
}

/// The JSON object that stands for a box outline: one member for each field, in the
/// order of declaration.
pub open spec fn box_outline_to_json(c: BoxOutline) -> JsonView {
    JsonView::Object(
        seq![
            ("color"@, enc_vec3(c.color)),
            ("fade"@, enc_vec4(c.fade)),
        ],
    )
}

/// The BoxOutline that a JSON object stands for: each field read from the first
/// member of its name. `None` where a field is missing or has another shape.
pub open spec fn box_outline_from_json(j: JsonView) -> Option<BoxOutline> {
    if field_vec3(j, "color"@) is Some
        && field_vec4(j, "fade"@) is Some {
        Some(
            BoxOutline {
                color: field_vec3(j, "color"@)->0,
                fade: field_vec4(j, "fade"@)->0,
            },
        )
    } else {
        None
    }
}

/// The member `key` of `j`, read as a box outline.
pub open spec fn field_box_outline(j: JsonView, key: Seq<char>) -> Option<BoxOutline> {
    match field(j, key) {
        Some(v) => box_outline_from_json(v),
        None => None,
    }
}

/// Reading back what was written for a box outline gives the same value.
pub proof fn lemma_box_outline_roundtrip(c: BoxOutline)
    ensures
        box_outline_from_json(box_outline_to_json(c)) == Some(c),
{
    reveal_strlit("color");
    reveal_strlit("fade");
    let ms = box_outline_to_json(c)->Object_0;
    lemma_lookup_hit(ms, "color"@, 0, 0);
    assert("color"@.len() != "fade"@.len());
    lemma_lookup_hit(ms, "fade"@, 0, 1);
}

impl BoxOutline {
    /// This value as a JSON object.
    pub fn to_json(&self) -> (j: Json)
        ensures
            j@ == box_outline_to_json(*self),
    {
        let mut ms: Vec<Member> = Vec::new();
        ms.push(Member::new("color", Json::vec3(self.color)));
        ms.push(Member::new("fade", Json::vec4(self.fade)));
        let j = Json::object(ms);
        assert(j@->Object_0 =~= box_outline_to_json(*self)->Object_0);
        j
    }

    /// The value that a JSON object stands for.
    pub fn from_json(j: &Json) -> (r: Option<BoxOutline>)
        ensures
            r == box_outline_from_json(j@),
    {
        let color = match get_vec3(j, "color") {
            Some(v) => v,
            None => {
                return None;
            },
        };
        let fade = match get_vec4(j, "fade") {
            Some(v) => v,
            None => {
                return None;
            },
        };
        Some(BoxOutline { color, fade })
    }
}

/// The JSON object that stands for movement controls: one member for each field, in the
/// order of declaration.
pub open spec fn movement_controls_to_json(c: MovementControls) -> JsonView {
    JsonView::Object(
        seq![
            ("speed"@, enc_scalar(c.speed)),
        ],
    )
}

/// The MovementControls that a JSON object stands for: each field read from the first
/// member of its name. `None` where a field is missing or has another shape.
pub open spec fn movement_controls_from_json(j: JsonView) -> Option<MovementControls> {
    if field_scalar(j, "speed"@) is Some {
        Some(
            MovementControls {
                speed: field_scalar(j, "speed"@)->0,
            },
        )
    } else {
        None
    }
}

/// The member `key` of `j`, read as movement controls.
pub open spec fn field_movement_controls(j: JsonView, key: Seq<char>) -> Option<MovementControls> {
    match field(j, key) {
        Some(v) => movement_controls_from_json(v),
        None => None,
    }
}

/// Reading back what was written for movement controls gives the same value.
pub proof fn lemma_movement_controls_roundtrip(c: MovementControls)
    ensures
        movement_controls_from_json(movement_controls_to_json(c)) == Some(c),
{
    reveal_strlit("speed");
    let ms = movement_controls_to_json(c)->Object_0;
    lemma_lookup_hit(ms, "speed"@, 0, 0);
}

impl MovementControls {
    /// This value as a JSON object.
    pub fn to_json(&self) -> (j: Json)
        ensures
            j@ == movement_controls_to_json(*self),
    {
        let mut ms: Vec<Member> = Vec::new();
        ms.push(Member::new("speed", Json::scalar(self.speed)));
        let j = Json::object(ms);
        assert(j@->Object_0 =~= movement_controls_to_json(*self)->Object_0);
        j
    }

    /// The value that a JSON object stands for.
    pub fn from_json(j: &Json) -> (r: Option<MovementControls>)
        ensures
            r == movement_controls_from_json(j@),
    {
        let speed = match get_scalar(j, "speed") {
            Some(v) => v,
            None => {
                return None;
            },
        };
        Some(MovementControls { speed })
    }
}

/// The JSON object that stands for a force: one member for each field, in the
/// order of declaration.
pub open spec fn apply_force_to_json(c: ApplyForce) -> JsonView {
    JsonView::Object(
        seq![
            ("vec"@, enc_vec3(c.vec)),
            ("time_elapsed"@, enc_scalar(c.time_elapsed)),
            ("duration"@, enc_scalar(c.duration)),
            ("decay"@, enc_scalar(c.decay)),
        ],
    )
}

/// The ApplyForce that a JSON object stands for: each field read from the first
/// member of its name. `None` where a field is missing or has another shape.
pub open spec fn apply_force_from_json(j: JsonView) -> Option<ApplyForce> {
    if field_vec3(j, "vec"@) is Some
        && field_scalar(j, "time_elapsed"@) is Some
        && field_scalar(j, "duration"@) is Some
        && field_scalar(j, "decay"@) is Some {
        Some(
            ApplyForce {
                vec: field_vec3(j, "vec"@)->0,
                time_elapsed: field_scalar(j, "time_elapsed"@)->0,
                duration: field_scalar(j, "duration"@)->0,
                decay: field_scalar(j, "decay"@)->0,
            },
        )
    } else {
        None
    }
}

/// The member `key` of `j`, read as a force.
pub open spec fn field_apply_force(j: JsonView, key: Seq<char>) -> Option<ApplyForce> {
    match field(j, key) {
        Some(v) => apply_force_from_json(v),
        None => None,
    }
}

/// Reading back what was written for a force gives the same value.
pub proof fn lemma_apply_force_roundtrip(c: ApplyForce)
    ensures
        apply_force_from_json(apply_force_to_json(c)) == Some(c),
{
    reveal_strlit("vec");
    reveal_strlit("time_elapsed");
    reveal_strlit("duration");
    reveal_strlit("decay");
    let ms = apply_force_to_json(c)->Object_0;
    lemma_lookup_hit(ms, "vec"@, 0, 0);
    assert("vec"@.len() != "time_elapsed"@.len());
    lemma_lookup_hit(ms, "time_elapsed"@, 0, 1);
    assert("vec"@.len() != "duration"@.len());
    assert("time_elapsed"@.len() != "duration"@.len());
    lemma_lookup_hit(ms, "duration"@, 0, 2);
    assert("vec"@.len() != "decay"@.len());
    assert("time_elapsed"@.len() != "decay"@.len());
    assert("duration"@.len() != "decay"@.len());
    lemma_lookup_hit(ms, "decay"@, 0, 3);
}

impl ApplyForce {
    /// This value as a JSON object.
    pub fn to_json(&self) -> (j: Json)
        ensures
            j@ == apply_force_to_json(*self),
    {
        let mut ms: Vec<Member> = Vec::new();
        ms.push(Member::new("vec", Json::vec3(self.vec)));
        ms.push(Member::new("time_elapsed", Json::scalar(self.time_elapsed)));
        ms.push(Member::new("duration", Json::scalar(self.duration)));
        ms.push(Member::new("decay", Json::scalar(self.decay)));
        let j = Json::object(ms);
        assert(j@->Object_0 =~= apply_force_to_json(*self)->Object_0);
        j
    }

    /// The value that a JSON object stands for.
    pub fn from_json(j: &Json) -> (r: Option<ApplyForce>)
        ensures
            r == apply_force_from_json(j@),
    {
        let vec = match get_vec3(j, "vec") {
            Some(v) => v,
            None => {
                return None;
            },
        };
        let time_elapsed = match get_scalar(j, "time_elapsed") {
            Some(v) => v,
            None => {
                return None;
            },
        };
        let duration = match get_scalar(j, "duration") {
            Some(v) => v,
            None => {
                return None;
            },
        };
        let decay = match get_scalar(j, "decay") {
            Some(v) => v,
            None => {
                return None;
            },
        };
        Some(ApplyForce { vec, time_elapsed, duration, decay })
    }
}

/// The JSON object that stands for an explodeable: one member for each field, in the
/// order of declaration.
pub open spec fn explodeable_to_json(c: Explodeable) -> JsonView {
    JsonView::Object(
        seq![
            ("delete_entity"@, JsonView::Bool(c.delete_entity)),
            ("delete_component"@, JsonView::Bool(c.delete_component)),
            ("chunks_count"@, enc_int(c.chunks_count as int)),
            ("force"@, apply_force_to_json(c.force)),
        ],
    )
}

/// The Explodeable that a JSON object stands for: each field read from the first
/// member of its name. `None` where a field is missing or has another shape.
pub open spec fn explodeable_from_json(j: JsonView) -> Option<Explodeable> {
    if field_bool(j, "delete_entity"@) is Some
        && field_bool(j, "delete_component"@) is Some
        && field_int(j, "chunks_count"@, i32::MIN as int, i32::MAX as int) is Some
        && field_apply_force(j, "force"@) is Some {
        Some(
            Explodeable {
                delete_entity: field_bool(j, "delete_entity"@)->0,
                delete_component: field_bool(j, "delete_component"@)->0,
                chunks_count: (field_int(j, "chunks_count"@, i32::MIN as int, i32::MAX as int)->0) as i32,
                force: field_apply_force(j, "force"@)->0,
            },
        )
    } else {
        None
    }
}

/// The member `key` of `j`, read as an explodeable.
pub open spec fn field_explodeable(j: JsonView, key: Seq<char>) -> Option<Explodeable> {
    match field(j, key) {
        Some(v) => explodeable_from_json(v),
        None => None,
    }
}

/// Reading back what was written for an explodeable gives the same value.
pub proof fn lemma_explodeable_roundtrip(c: Explodeable)
    ensures
        explodeable_from_json(explodeable_to_json(c)) == Some(c),
{
    reveal_strlit("delete_entity");
    reveal_strlit("delete_component");
    reveal_strlit("chunks_count");
    reveal_strlit("force");
    let ms = explodeable_to_json(c)->Object_0;
    lemma_lookup_hit(ms, "delete_entity"@, 0, 0);
    assert("delete_entity"@.len() != "delete_component"@.len());
    lemma_lookup_hit(ms, "delete_component"@, 0, 1);
    assert("delete_entity"@.len() != "chunks_count"@.len());
    assert("delete_component"@.len() != "chunks_count"@.len());
    lemma_lookup_hit(ms, "chunks_count"@, 0, 2);
    assert("delete_entity"@.len() != "force"@.len());
    assert("delete_component"@.len() != "force"@.len());
    assert("chunks_count"@.len() != "force"@.len());
    lemma_lookup_hit(ms, "force"@, 0, 3);
    lemma_apply_force_roundtrip(c.force);
}

impl Explodeable {
    /// This value as a JSON object.
    pub fn to_json(&self) -> (j: Json)
        ensures
            j@ == explodeable_to_json(*self),
    {
        let mut ms: Vec<Member> = Vec::new();
        ms.push(Member::new("delete_entity", Json::Bool(self.delete_entity)));
        ms.push(Member::new("delete_component", Json::Bool(self.delete_component)));
        ms.push(Member::new("chunks_count", Json::integer(self.chunks_count as i64)));
        ms.push(Member::new("force", self.force.to_json()));
        let j = Json::object(ms);
        assert(j@->Object_0 =~= explodeable_to_json(*self)->Object_0);
        j
    }

    /// The value that a JSON object stands for.
    pub fn from_json(j: &Json) -> (r: Option<Explodeable>)
        ensures
            r == explodeable_from_json(j@),
    {
        let delete_entity = match get_bool(j, "delete_entity") {
            Some(v) => v,
            None => {
                return None;
            },
        };
        let delete_component = match get_bool(j, "delete_component") {
            Some(v) => v,
            None => {
                return None;
            },
        };
        let chunks_count = match get_int(j, "chunks_count", -0x8000_0000, 0x7FFF_FFFF) {
            Some(v) => v as i32,
            None => {
                return None;
            },
        };
        let force = match match j.get("force") {
            Some(inner) => ApplyForce::from_json(inner),
            None => None,
        } {
            Some(v) => v,
            None => {
                return None;
            },
        };
        Some(Explodeable { delete_entity, delete_component, chunks_count, force })
    }
}

/// The JSON object that stands for a hitbox: one member for each field, in the
/// order of declaration.
pub open spec fn hitbox_to_json(c: Hitbox) -> JsonView {
    JsonView::Object(
        seq![
            ("position"@, enc_vec3(c.position)),
            ("rotation"@, enc_vec3(c.rotation)),
            ("scale"@, enc_vec3(c.scale)),
            ("density"@, enc_scalar(c.density)),
            ("physics_interaction"@, JsonView::Bool(c.physics_interaction)),
        ],
    )
}

/// The Hitbox that a JSON object stands for: each field read from the first
/// member of its name. `None` where a field is missing or has another shape.
pub open spec fn hitbox_from_json(j: JsonView) -> Option<Hitbox> {
    if field_vec3(j, "position"@) is Some
        && field_vec3(j, "rotation"@) is Some
        && field_vec3(j, "scale"@) is Some
        && field_scalar(j, "density"@) is Some
        && field_bool(j, "physics_interaction"@) is Some {
        Some(
            Hitbox {
                position: field_vec3(j, "position"@)->0,
                rotation: field_vec3(j, "rotation"@)->0,
                scale: field_vec3(j, "scale"@)->0,
                density: field_scalar(j, "density"@)->0,
                physics_interaction: field_bool(j, "physics_interaction"@)->0,
            },
        )
    } else {
        None
    }
}

/// The member `key` of `j`, read as a hitbox.
pub open spec fn field_hitbox(j: JsonView, key: Seq<char>) -> Option<Hitbox> {
    match field(j, key) {
        Some(v) => hitbox_from_json(v),
        None => None,
    }
}

/// Reading back what was written for a hitbox gives the same value.
pub proof fn lemma_hitbox_roundtrip(c: Hitbox)
    ensures
        hitbox_from_json(hitbox_to_json(c)) == Some(c),
{
    reveal_strlit("position");
    reveal_strlit("rotation");
    reveal_strlit("scale");
    reveal_strlit("density");
    reveal_strlit("physics_interaction");
    let ms = hitbox_to_json(c)->Object_0;
    lemma_lookup_hit(ms, "position"@, 0, 0);
    assert("position"@[0] != "rotation"@[0]);
    lemma_lookup_hit(ms, "rotation"@, 0, 1);
    assert("position"@.len() != "scale"@.len());
    assert("rotation"@.len() != "scale"@.len());
    lemma_lookup_hit(ms, "scale"@, 0, 2);
    assert("position"@.len() != "density"@.len());
    assert("rotation"@.len() != "density"@.len());
    assert("scale"@.len() != "density"@.len());
    lemma_lookup_hit(ms, "density"@, 0, 3);
    assert("position"@.len() != "physics_interaction"@.len());
    assert("rotation"@.len() != "physics_interaction"@.len());
    assert("scale"@.len() != "physics_interaction"@.len());
    assert("density"@.len() != "physics_interaction"@.len());
    lemma_lookup_hit(ms, "physics_interaction"@, 0, 4);
}

impl Hitbox {
    /// This value as a JSON object.
    pub fn to_json(&self) -> (j: Json)
        ensures
            j@ == hitbox_to_json(*self),
    {
        let mut ms: Vec<Member> = Vec::new();
        ms.push(Member::new("position", Json::vec3(self.position)));
        ms.push(Member::new("rotation", Json::vec3(self.rotation)));
        ms.push(Member::new("scale", Json::vec3(self.scale)));
        ms.push(Member::new("density", Json::scalar(self.density)));
        ms.push(Member::new("physics_interaction", Json::Bool(self.physics_interaction)));
        let j = Json::object(ms);
        assert(j@->Object_0 =~= hitbox_to_json(*self)->Object_0);
        j
    }

    /// The value that a JSON object stands for.
    pub fn from_json(j: &Json) -> (r: Option<Hitbox>)
        ensures
            r == hitbox_from_json(j@),
    {
        let position = match get_vec3(j, "position") {
            Some(v) => v,
            None => {
                return None;
            },
        };
        let rotation = match get_vec3(j, "rotation") {
            Some(v) => v,
            None => {
                return None;
            },
        };
        let scale = match get_vec3(j, "scale") {
            Some(v) => v,
            None => {
                return None;
            },
        };
        let density = match get_scalar(j, "density") {
            Some(v) => v,
            None => {
                return None;
            },
        };
        let physics_interaction = match get_bool(j, "physics_interaction") {
            Some(v) => v,
            None => {
                return None;
            },
        };
        Some(Hitbox { position, rotation, scale, density, physics_interaction })
    }
}

/// The JSON object that stands for a health record: one member for each field, in the
/// order of declaration.
pub open spec fn health_to_json(c: Health) -> JsonView {
    JsonView::Object(
        seq![
            ("value"@, enc_scalar(c.value)),
            ("max"@, enc_scalar(c.max)),
        ],
    )
}

/// The Health that a JSON object stands for: each field read from the first
/// member of its name. `None` where a field is missing or has another shape.
pub open spec fn health_from_json(j: JsonView) -> Option<Health> {
    if field_scalar(j, "value"@) is Some
        && field_scalar(j, "max"@) is Some {
        Some(
            Health {
                value: field_scalar(j, "value"@)->0,
                max: field_scalar(j, "max"@)->0,
            },
        )
    } else {
        None
    }
}

/// The member `key` of `j`, read as a health record.
pub open spec fn field_health(j: JsonView, key: Seq<char>) -> Option<Health> {
    match field(j, key) {
        Some(v) => health_from_json(v),
        None => None,
    }
}

/// Reading back what was written for a health record gives the same value.
pub proof fn lemma_health_roundtrip(c: Health)
    ensures
        health_from_json(health_to_json(c)) == Some(c),
{
    reveal_strlit("value");
    reveal_strlit("max");
    let ms = health_to_json(c)->Object_0;
    lemma_lookup_hit(ms, "value"@, 0, 0);
    assert("value"@.len() != "max"@.len());
    lemma_lookup_hit(ms, "max"@, 0, 1);
}

impl Health {
    /// This value as a JSON object.
    pub fn to_json(&self) -> (j: Json)
        ensures
            j@ == health_to_json(*self),
    {
        let mut ms: Vec<Member> = Vec::new();
        ms.push(Member::new("value", Json::scalar(self.value)));
        ms.push(Member::new("max", Json::scalar(self.max)));
        let j = Json::object(ms);
        assert(j@->Object_0 =~= health_to_json(*self)->Object_0);
        j
    }

    /// The value that a JSON object stands for.
    pub fn from_json(j: &Json) -> (r: Option<Health>)
        ensures
            r == health_from_json(j@),
    {
        let value = match get_scalar(j, "value") {
            Some(v) => v,
            None => {
                return None;
            },
        };
        let max = match get_scalar(j, "max") {
            Some(v) => v,
            None => {
                return None;
            },
        };
        Some(Health { value, max })
    }
}

/// Why a JSON value could not be read as a component.
#[derive(Debug, PartialEq, Eq)]
pub enum DeserializationError {
    /// The value is no object with exactly one member.
    NotTagged,
    /// The tag names no component type that is saved.
    UnknownTag(String),
    /// The value under the tag does not have the shape of the type that the
    /// tag names.
    SchemaMismatch(ComponentKind),
}

/// The mathematical value of a [`DeserializationError`].
pub enum DeserializationErrorView {
    NotTagged,
    UnknownTag(Seq<char>),
    SchemaMismatch(ComponentKind),
}

impl View for DeserializationError {
    type V = DeserializationErrorView;

    open spec fn view(&self) -> DeserializationErrorView {
        match self {
            DeserializationError::NotTagged => DeserializationErrorView::NotTagged,
            DeserializationError::UnknownTag(t) => DeserializationErrorView::UnknownTag(t@),
            DeserializationError::SchemaMismatch(k) => DeserializationErrorView::SchemaMismatch(
                *k,
            ),
        }
    }
}

/// The JSON value that stands for a component's fields. The two types that
/// are never saved have none: for them this is `null`.
pub open spec fn component_body(c: ComponentView) -> JsonView {
    match c {
        ComponentView::Assemblaged(v) => assemblaged_to_json(v),
        ComponentView::Interactable(v) => interactable_to_json(v),
        ComponentView::EmitCollideEvent(v) => emit_collide_event_to_json(v),
        ComponentView::ScriptEvent(v) => script_event_to_json(v),
        ComponentView::ScriptingIds(v) => scripting_ids_to_json(v),
        ComponentView::AppearanceBuilder(v) => appearance_builder_to_json(v),
        ComponentView::Animation(v) => animation_to_json(v),
        ComponentView::CameraFocus(v) => camera_focus_to_json(v),
        ComponentView::BoxOutline(v) => box_outline_to_json(v),
        ComponentView::Explodeable(v) => explodeable_to_json(v),
        ComponentView::MovementControls(v) => movement_controls_to_json(v),
        ComponentView::ApplyForce(v) => apply_force_to_json(v),
        ComponentView::Hitbox(v) => hitbox_to_json(v),
        ComponentView::Health(v) => health_to_json(v),
        ComponentView::Appearance(_) => JsonView::Null,
        ComponentView::Phys(_) => JsonView::Null,
    }
}

/// The component of type `kind` that a JSON value stands for.
pub open spec fn component_from_body(kind: ComponentKind, j: JsonView) -> Option<ComponentView> {
    match kind {
        ComponentKind::Assemblaged => match assemblaged_from_json(j) {
            Some(v) => Some(ComponentView::Assemblaged(v)),
            None => None,
        },
        ComponentKind::Interactable => match interactable_from_json(j) {
            Some(v) => Some(ComponentView::Interactable(v)),
            None => None,
        },
        ComponentKind::EmitCollideEvent => match emit_collide_event_from_json(j) {
            Some(v) => Some(ComponentView::EmitCollideEvent(v)),
            None => None,
        },
        ComponentKind::ScriptEvent => match script_event_from_json(j) {
            Some(v) => Some(ComponentView::ScriptEvent(v)),
            None => None,
        },
        ComponentKind::ScriptingIds => match scripting_ids_from_json(j) {
            Some(v) => Some(ComponentView::ScriptingIds(v)),
            None => None,
        },
        ComponentKind::AppearanceBuilder => match appearance_builder_from_json(j) {
            Some(v) => Some(ComponentView::AppearanceBuilder(v)),
            None => None,
        },
        ComponentKind::Animation => match animation_from_json(j) {
            Some(v) => Some(ComponentView::Animation(v)),
            None => None,
        },
        ComponentKind::CameraFocus => match camera_focus_from_json(j) {
            Some(v) => Some(ComponentView::CameraFocus(v)),
            None => None,
        },
        ComponentKind::BoxOutline => match box_outline_from_json(j) {
            Some(v) => Some(ComponentView::BoxOutline(v)),
            None => None,
        },
        ComponentKind::Explodeable => match explodeable_from_json(j) {
            Some(v) => Some(ComponentView::Explodeable(v)),
            None => None,
        },
        ComponentKind::MovementControls => match movement_controls_from_json(j) {
            Some(v) => Some(ComponentView::MovementControls(v)),
            None => None,
        },
        ComponentKind::ApplyForce => match apply_force_from_json(j) {
            Some(v) => Some(ComponentView::ApplyForce(v)),
            None => None,
        },
        ComponentKind::Hitbox => match hitbox_from_json(j) {
            Some(v) => Some(ComponentView::Hitbox(v)),
            None => None,
        },
        ComponentKind::Health => match health_from_json(j) {
            Some(v) => Some(ComponentView::Health(v)),
            None => None,
        },
        ComponentKind::Appearance => None,
        ComponentKind::Phys => None,
    }
}

/// The component type whose name is `name`.
pub open spec fn kind_of_name(name: Seq<char>) -> Option<ComponentKind> {
    if exists|k: ComponentKind| kind_name(k) == name {
        Some(choose|k: ComponentKind| kind_name(k) == name)
    } else {
        None
    }
}

/// The name of a component type names that type and no other.
pub proof fn lemma_kind_of_name(kind: ComponentKind)
    ensures
        kind_of_name(kind_name(kind)) == Some(kind),
{
    let found = choose|k: ComponentKind| kind_name(k) == kind_name(kind);
    lemma_kind_names_distinct(found, kind);
}

/// The tagged form of a component: an object whose one member has the name of
/// the component's type as its key and the component's fields as its value.
/// A component of a type that is never saved has none.
pub open spec fn serialize_tagged_spec(c: ComponentView) -> Option<JsonView> {
    if kind_is_persistent(c.kind()) {
        Some(JsonView::Object(seq![(kind_name(c.kind()), component_body(c))]))
    } else {
        None
    }
}

/// The component that a tagged JSON value stands for, or the reason why it
/// stands for none.
pub open spec fn deserialize_tagged_spec(j: JsonView) -> Result<
    ComponentView,
    DeserializationErrorView,
> {
    match j {
        JsonView::Object(ms) => if ms.len() == 1 {
            match kind_of_name(ms[0].0) {
                Some(kind) => if kind_is_persistent(kind) {
                    match component_from_body(kind, ms[0].1) {
                        Some(c) => Ok(c),
                        None => Err(DeserializationErrorView::SchemaMismatch(kind)),
                    }
                } else {
                    Err(DeserializationErrorView::UnknownTag(ms[0].0))
                },
                None => Err(DeserializationErrorView::UnknownTag(ms[0].0)),
            }
        } else {
            Err(DeserializationErrorView::NotTagged)
        },
        _ => Err(DeserializationErrorView::NotTagged),
    }
}

/// Reading back the fields written for a component of a saved type gives
/// the same component.
pub proof fn lemma_body_roundtrip(c: ComponentView)
    requires
        kind_is_persistent(c.kind()),
    ensures
        component_from_body(c.kind(), component_body(c)) == Some(c),
{
    match c {
        ComponentView::Assemblaged(v) => lemma_assemblaged_roundtrip(v),
        ComponentView::Interactable(v) => lemma_interactable_roundtrip(v),
        ComponentView::EmitCollideEvent(v) => lemma_emit_collide_event_roundtrip(v),
        ComponentView::ScriptEvent(v) => lemma_script_event_roundtrip(v),
        ComponentView::ScriptingIds(v) => lemma_scripting_ids_roundtrip(v),
        ComponentView::AppearanceBuilder(v) => lemma_appearance_builder_roundtrip(v),
        ComponentView::Animation(v) => lemma_animation_roundtrip(v),
        ComponentView::CameraFocus(v) => lemma_camera_focus_roundtrip(v),
        ComponentView::BoxOutline(v) => lemma_box_outline_roundtrip(v),
        ComponentView::Explodeable(v) => lemma_explodeable_roundtrip(v),
        ComponentView::MovementControls(v) => lemma_movement_controls_roundtrip(v),
        ComponentView::ApplyForce(v) => lemma_apply_force_roundtrip(v),
        ComponentView::Hitbox(v) => lemma_hitbox_roundtrip(v),
        ComponentView::Health(v) => lemma_health_roundtrip(v),
        ComponentView::Appearance(_) => {},
        ComponentView::Phys(_) => {},
    }
}

/// Round trip: deserializing the tagged form of any component of a saved type
/// gives back that component.
pub proof fn lemma_tagged_roundtrip(c: ComponentView)
    requires
        kind_is_persistent(c.kind()),
    ensures
        serialize_tagged_spec(c) is Some,
        deserialize_tagged_spec(serialize_tagged_spec(c)->0) == Ok::<
            ComponentView,
            DeserializationErrorView,
        >(c),
{
    lemma_kind_of_name(c.kind());
    lemma_body_roundtrip(c);
}

impl Component {
    /// The fields of this component as a JSON value, where its type is saved.
    pub fn body_to_json(&self) -> (r: Option<Json>)
        ensures
            match r {
                Some(j) => kind_is_persistent(self@.kind()) && j@ == component_body(self@),
                None => !kind_is_persistent(self@.kind()),
            },
    {
        match self {
            Component::Assemblaged(c) => Some(c.to_json()),
            Component::Interactable(c) => Some(c.to_json()),
            Component::EmitCollideEvent(c) => Some(c.to_json()),
            Component::ScriptEvent(c) => Some(c.to_json()),
            Component::ScriptingIds(c) => Some(c.to_json()),
            Component::AppearanceBuilder(c) => Some(c.to_json()),
            Component::Animation(c) => Some(c.to_json()),
            Component::CameraFocus(c) => Some(c.to_json()),
            Component::BoxOutline(c) => Some(c.to_json()),
            Component::Explodeable(c) => Some(c.to_json()),
            Component::MovementControls(c) => Some(c.to_json()),
            Component::ApplyForce(c) => Some(c.to_json()),
            Component::Hitbox(c) => Some(c.to_json()),
            Component::Health(c) => Some(c.to_json()),
            Component::Appearance(_) => None,
            Component::Phys(_) => None,
        }
    }

    /// The component of type `kind` that the JSON value `j` stands for.
    pub fn body_from_json(kind: ComponentKind, j: &Json) -> (r: Option<Component>)
        ensures
            match r {
                Some(c) => component_from_body(kind, j@) == Some(c@),
                None => component_from_body(kind, j@) is None,
            },
    {
        match kind {
            ComponentKind::Assemblaged => match Assemblaged::from_json(j) {
                Some(c) => Some(Component::Assemblaged(c)),
                None => None,
            },
            ComponentKind::Interactable => match Interactable::from_json(j) {
                Some(c) => Some(Component::Interactable(c)),
                None => None,
            },
            ComponentKind::EmitCollideEvent => match EmitCollideEvent::from_json(j) {
                Some(c) => Some(Component::EmitCollideEvent(c)),
                None => None,
            },
            ComponentKind::ScriptEvent => match ScriptEvent::from_json(j) {
                Some(c) => Some(Component::ScriptEvent(c)),
                None => None,
            },
            ComponentKind::ScriptingIds => match ScriptingIds::from_json(j) {
                Some(c) => Some(Component::ScriptingIds(c)),
                None => None,
            },
            ComponentKind::AppearanceBuilder => match AppearanceBuilder::from_json(j) {
                Some(c) => Some(Component::AppearanceBuilder(c)),
                None => None,
            },
            ComponentKind::Animation => match Animation::from_json(j) {
                Some(c) => Some(Component::Animation(c)),
                None => None,
            },
            ComponentKind::CameraFocus => match CameraFocus::from_json(j) {
                Some(c) => Some(Component::CameraFocus(c)),
                None => None,
            },
            ComponentKind::BoxOutline => match BoxOutline::from_json(j) {
                Some(c) => Some(Component::BoxOutline(c)),
                None => None,
            },
            ComponentKind::Explodeable => match Explodeable::from_json(j) {
                Some(c) => Some(Component::Explodeable(c)),
                None => None,
            },
            ComponentKind::MovementControls => match MovementControls::from_json(j) {
                Some(c) => Some(Component::MovementControls(c)),
                None => None,
            },
            ComponentKind::ApplyForce => match ApplyForce::from_json(j) {
                Some(c) => Some(Component::ApplyForce(c)),
                None => None,
            },
            ComponentKind::Hitbox => match Hitbox::from_json(j) {
                Some(c) => Some(Component::Hitbox(c)),
                None => None,
            },
            ComponentKind::Health => match Health::from_json(j) {
                Some(c) => Some(Component::Health(c)),
                None => None,
            },
            ComponentKind::Appearance => None,
            ComponentKind::Phys => None,
        }
    }

    /// The tagged form of this component, `{ "<type name>": <fields> }`.
    /// `None` for a component of a type that is never saved.
    pub fn serialize_tagged(&self) -> (r: Option<Json>)
        ensures
            match r {
                Some(j) => serialize_tagged_spec(self@) == Some(j@),
                None => serialize_tagged_spec(self@) is None,
            },
    {
        match self.body_to_json() {
            Some(body) => {
                let mut ms: Vec<Member> = Vec::new();
                ms.push(Member::new(self.name(), body));
                let j = Json::object(ms);
                assert(j@->Object_0 =~= serialize_tagged_spec(self@)->0->Object_0);
                Some(j)
            },
            None => None,
        }
    }

    /// The component that a tagged JSON value stands for.
    ///
    /// Fails with `NotTagged` where `j` is no object with exactly one member,
    /// with `UnknownTag` where the member's key names no saved component
    /// type, and with `SchemaMismatch` where its value does not have the
    /// shape of the type named.
    pub fn deserialize_tagged(j: &Json) -> (r: Result<Component, DeserializationError>)
        ensures
            match r {
                Ok(c) => deserialize_tagged_spec(j@) == Ok::<
                    ComponentView,
                    DeserializationErrorView,
                >(c@),
                Err(e) => deserialize_tagged_spec(j@) == Err::<
                    ComponentView,
                    DeserializationErrorView,
                >(e@),
            },
    {
        match j {
            Json::Object(members) => {
                proof {
                    crate::json::lemma_view_unfold(*j);
                }
                if members.len() != 1 {
                    return Err(DeserializationError::NotTagged);
                }
                let tag = &members[0].key;
                assert(j@->Object_0[0] == (members[0].key@, members[0].value@));
                match kind_from_name(tag.as_str()) {
                    Some(kind) => {
                        proof {
                            lemma_kind_of_name(kind);
                        }
                        if !kind.is_persistent() {
                            return Err(DeserializationError::UnknownTag(tag.clone()));
                        }
                        match Component::body_from_json(kind, &members[0].value) {
                            Some(c) => Ok(c),
                            None => Err(DeserializationError::SchemaMismatch(kind)),
                        }
                    },
                    None => Err(DeserializationError::UnknownTag(tag.clone())),
                }
            },
            _ => Err(DeserializationError::NotTagged),
        }
    }
}

} // verus!
