//! Settings patches: normalising a requested change against the current
//! settings, and applying it.

use vstd::prelude::*;

use crate::models::{
    copy_opt, opt_view, CustomCss, CustomJs, FadePosition, JsPlugin, NoteSettings,
    OverlayResizeAnchor,
};

verus! {

/// Settings the core reads and the windows display.
#[derive(Debug)]
pub struct SettingsState {
    pub hardware_acceleration: bool,
    pub always_on_top: bool,
    pub overlay_locked: bool,
    pub note_effect: bool,
    pub note_settings: NoteSettings,
    pub angle_mode: String,
    pub language: String,
    pub laboratory_enabled: bool,
    pub developer_mode_enabled: bool,
    pub background_color: String,
    pub use_custom_css: bool,
    pub custom_css: CustomCss,
    pub use_custom_js: bool,
    pub custom_js: CustomJs,
    pub overlay_resize_anchor: OverlayResizeAnchor,
    pub key_counter_enabled: bool,
}

/// A change to note settings; absent fields stay.
#[derive(Debug, Clone, Copy)]
pub struct NoteSettingsPatch {
    pub border_radius: Option<u32>,
    pub speed: Option<u32>,
    pub track_height: Option<u32>,
    pub reverse: Option<bool>,
    pub fade_position: Option<FadePosition>,
    pub delayed_note_enabled: Option<bool>,
    pub short_note_threshold_ms: Option<u32>,
    pub short_note_min_length_px: Option<u32>,
    pub key_display_delay_ms: Option<u32>,
}

/// A change to the stylesheet; `path: Some(None)` clears the path.
#[derive(Debug)]
pub struct CustomCssPatch {
    pub path: Option<Option<String>>,
    pub content: Option<String>,
}

/// A change to the user scripts.
#[derive(Debug)]
pub struct CustomJsPatch {
    pub path: Option<Option<String>>,
    pub content: Option<String>,
    pub plugins: Option<Vec<JsPlugin>>,
}

/// A requested change to the settings.
#[derive(Debug)]
pub struct SettingsPatchInput {
    pub hardware_acceleration: Option<bool>,
    pub always_on_top: Option<bool>,
    pub overlay_locked: Option<bool>,
    pub note_effect: Option<bool>,
    pub note_settings: Option<NoteSettingsPatch>,
    pub angle_mode: Option<String>,
    pub language: Option<String>,
    pub laboratory_enabled: Option<bool>,
    pub developer_mode_enabled: Option<bool>,
    pub background_color: Option<String>,
    pub use_custom_css: Option<bool>,
    pub custom_css: Option<CustomCssPatch>,
    pub use_custom_js: Option<bool>,
    pub custom_js: Option<CustomJsPatch>,
    pub overlay_resize_anchor: Option<OverlayResizeAnchor>,
    pub key_counter_enabled: Option<bool>,
}

/// A change as applied: the fields that change, with their new values.
#[derive(Debug)]
pub struct SettingsPatch {
    pub hardware_acceleration: Option<bool>,
    pub always_on_top: Option<bool>,
    pub overlay_locked: Option<bool>,
    pub note_effect: Option<bool>,
    pub note_settings: Option<NoteSettings>,
    pub angle_mode: Option<String>,
    pub language: Option<String>,
    pub laboratory_enabled: Option<bool>,
    pub developer_mode_enabled: Option<bool>,
    pub background_color: Option<String>,
    pub use_custom_css: Option<bool>,
    pub custom_css: Option<CustomCss>,
    pub use_custom_js: Option<bool>,
    pub custom_js: Option<CustomJs>,
    pub overlay_resize_anchor: Option<OverlayResizeAnchor>,
    pub key_counter_enabled: Option<bool>,
}

/// An applied change and the settings after it.
#[derive(Debug)]
pub struct SettingsDiff {
    pub changed: SettingsPatch,
    pub full: SettingsState,
}

/// View of a script.
pub open spec fn plugin_view(p: JsPlugin) -> (Seq<char>, Seq<char>, Option<Seq<char>>, Seq<char>, bool) {
    (p.id@, p.name@, opt_view(p.path), p.content@, p.enabled)
}

/// View of a stylesheet.
pub open spec fn css_view(c: CustomCss) -> (Option<Seq<char>>, Seq<char>) {
    (opt_view(c.path), c.content@)
}

/// View of the scripts.
pub open spec fn js_view(j: CustomJs) -> (Option<Seq<char>>, Seq<char>, Seq<(Seq<char>, Seq<char>, Option<Seq<char>>, Seq<char>, bool)>) {
    (opt_view(j.path), j.content@, j.plugins@.map_values(|p: JsPlugin| plugin_view(p)))
}

/// `patched` unless absent, else `current`.
pub open spec fn or_keep<T>(patched: Option<T>, current: T) -> T {
    match patched {
        Some(v) => v,
        None => current,
    }
}

/// `patched` unless absent, else `current`, as views.
pub open spec fn or_keep_str(patched: Option<String>, current: String) -> Seq<char> {
    match patched {
        Some(v) => v@,
        None => current@,
    }
}

fn copy_plugin(p: &JsPlugin) -> (r: JsPlugin)
    ensures
        plugin_view(r) == plugin_view(*p),
{
    JsPlugin {
        id: p.id.clone(),
        name: p.name.clone(),
        path: copy_opt(&p.path),
        content: p.content.clone(),
        enabled: p.enabled,
    }
}

fn copy_plugins(v: &Vec<JsPlugin>) -> (r: Vec<JsPlugin>)
    ensures
        r@.map_values(|p: JsPlugin| plugin_view(p)) == v@.map_values(|p: JsPlugin| plugin_view(p)),
{
    let mut r: Vec<JsPlugin> = Vec::new();
    let mut i: usize = 0;
    while i < v.len()
        invariant
            i <= v@.len(),
            r@.len() == i,
            forall|j: int| 0 <= j < i ==> plugin_view(#[trigger] r@[j]) == plugin_view(v@[j]),
        decreases v@.len() - i,
    {
        r.push(copy_plugin(&v[i]));
        i = i + 1;
    }
    assert(r@.map_values(|p: JsPlugin| plugin_view(p)) =~= v@.map_values(|p: JsPlugin| plugin_view(p)));
    r
}

fn copy_css(c: &CustomCss) -> (r: CustomCss)
    ensures
        css_view(r) == css_view(*c),
{
    CustomCss { path: copy_opt(&c.path), content: c.content.clone() }
}

fn copy_js(j: &CustomJs) -> (r: CustomJs)
    ensures
        js_view(r) == js_view(*j),
{
    CustomJs { path: copy_opt(&j.path), content: j.content.clone(), plugins: copy_plugins(&j.plugins) }
}

/// Note settings with the present fields of `patch` applied. The corner
/// radius is not patched here: it belongs to each key.
pub fn apply_note_patch(settings: NoteSettings, patch: &NoteSettingsPatch) -> (r: NoteSettings)
    ensures
        r == (NoteSettings {
            border_radius: settings.border_radius,
            speed: or_keep(patch.speed, settings.speed),
            track_height: or_keep(patch.track_height, settings.track_height),
            reverse: or_keep(patch.reverse, settings.reverse),
            fade_position: or_keep(patch.fade_position, settings.fade_position),
            delayed_note_enabled: or_keep(patch.delayed_note_enabled, settings.delayed_note_enabled),
            short_note_threshold_ms: or_keep(patch.short_note_threshold_ms, settings.short_note_threshold_ms),
            short_note_min_length_px: or_keep(patch.short_note_min_length_px, settings.short_note_min_length_px),
            key_display_delay_ms: or_keep(patch.key_display_delay_ms, settings.key_display_delay_ms),
        }),
{
    let mut s = settings;
    if let Some(v) = patch.speed {
        s.speed = v;
    }
    if let Some(v) = patch.track_height {
        s.track_height = v;
    }
    if let Some(v) = patch.reverse {
        s.reverse = v;
    }
    if let Some(v) = patch.fade_position {
        s.fade_position = v;
    }
    if let Some(v) = patch.delayed_note_enabled {
        s.delayed_note_enabled = v;
    }
    if let Some(v) = patch.short_note_threshold_ms {
        s.short_note_threshold_ms = v;
    }
    if let Some(v) = patch.short_note_min_length_px {
        s.short_note_min_length_px = v;
    }
    if let Some(v) = patch.key_display_delay_ms {
        s.key_display_delay_ms = v;
    }
    s
}

/// A stylesheet with the present fields of `patch` applied.
pub fn apply_css_patch(css: CustomCss, patch: &CustomCssPatch) -> (r: CustomCss)
    ensures
        opt_view(r.path) == (match patch.path {
            Some(p) => opt_view(p),
            None => opt_view(css.path),
        }),
        r.content@ == or_keep_str(patch.content, css.content),
{
    let mut c = css;
    if let Some(p) = &patch.path {
        c.path = copy_opt(p);
    }
    if let Some(v) = &patch.content {
        c.content = v.clone();
    }
    c
}

/// Scripts with the present fields of `patch` applied.
pub fn apply_js_patch(script: CustomJs, patch: &CustomJsPatch) -> (r: CustomJs)
    ensures
        opt_view(r.path) == (match patch.path {
            Some(p) => opt_view(p),
            None => opt_view(script.path),
        }),
        r.content@ == or_keep_str(patch.content, script.content),
        r.plugins@.map_values(|p: JsPlugin| plugin_view(p)) == (match patch.plugins {
            Some(ps) => ps@.map_values(|p: JsPlugin| plugin_view(p)),
            None => script.plugins@.map_values(|p: JsPlugin| plugin_view(p)),
        }),
{
    let mut j = script;
    if let Some(p) = &patch.path {
        j.path = copy_opt(p);
    }
    if let Some(v) = &patch.content {
        j.content = v.clone();
    }
    if let Some(ps) = &patch.plugins {
        j.plugins = copy_plugins(ps);
    }
    j
}

fn keep_copy<T: Copy>(patched: Option<T>, current: T) -> (r: T)
    ensures
        r == or_keep(patched, current),
{
    match patched {
        Some(v) => v,
        None => current,
    }
}

fn keep_string(patched: &Option<String>, current: String) -> (r: String)
    ensures
        r@ == or_keep_str(*patched, current),
{
    match patched {
        Some(v) => v.clone(),
        None => current,
    }
}

fn keep_css(patched: &Option<CustomCss>, current: CustomCss) -> (r: CustomCss)
    ensures
        css_view(r) == (match *patched {
            Some(v) => css_view(v),
            None => css_view(current),
        }),
{
    match patched {
        Some(v) => copy_css(v),
        None => current,
    }
}

fn keep_js(patched: &Option<CustomJs>, current: CustomJs) -> (r: CustomJs)
    ensures
        js_view(r) == (match *patched {
            Some(v) => js_view(v),
            None => js_view(current),
        }),
{
    match patched {
        Some(v) => copy_js(v),
        None => current,
    }
}

/// One for true, zero for false.
pub open spec fn indicator(b: bool) -> nat {
    if b {
        1
    } else {
        0
    }
}

fn flag(b: bool) -> (r: usize)
    ensures
        r == indicator(b),
        r <= 1,
{
    if b {
        1
    } else {
        0
    }
}

/// The settings after applying `patch`.
pub fn apply_changes(current: SettingsState, patch: &SettingsPatch) -> (r: SettingsState)
    ensures
        r.hardware_acceleration == or_keep(patch.hardware_acceleration, current.hardware_acceleration),
        r.always_on_top == or_keep(patch.always_on_top, current.always_on_top),
        r.overlay_locked == or_keep(patch.overlay_locked, current.overlay_locked),
        r.note_effect == or_keep(patch.note_effect, current.note_effect),
        r.note_settings == or_keep(patch.note_settings, current.note_settings),
        r.angle_mode@ == or_keep_str(patch.angle_mode, current.angle_mode),
        r.language@ == or_keep_str(patch.language, current.language),
        r.laboratory_enabled == or_keep(patch.laboratory_enabled, current.laboratory_enabled),
        r.developer_mode_enabled == or_keep(patch.developer_mode_enabled, current.developer_mode_enabled),
        r.background_color@ == or_keep_str(patch.background_color, current.background_color),
        r.use_custom_css == or_keep(patch.use_custom_css, current.use_custom_css),
        css_view(r.custom_css) == (match patch.custom_css {
            Some(v) => css_view(v),
            None => css_view(current.custom_css),
        }),
        r.use_custom_js == or_keep(patch.use_custom_js, current.use_custom_js),
        js_view(r.custom_js) == (match patch.custom_js {
            Some(v) => js_view(v),
            None => js_view(current.custom_js),
        }),
        r.overlay_resize_anchor == or_keep(patch.overlay_resize_anchor, current.overlay_resize_anchor),
        r.key_counter_enabled == or_keep(patch.key_counter_enabled, current.key_counter_enabled),
{
    let SettingsState {
        hardware_acceleration,
        always_on_top,
        overlay_locked,
        note_effect,
        note_settings,
        angle_mode,
        language,
        laboratory_enabled,
        developer_mode_enabled,
        background_color,
        use_custom_css,
        custom_css,
        use_custom_js,
        custom_js,
        overlay_resize_anchor,
        key_counter_enabled,
    } = current;
    SettingsState {
        hardware_acceleration: keep_copy(patch.hardware_acceleration, hardware_acceleration),
        always_on_top: keep_copy(patch.always_on_top, always_on_top),
        overlay_locked: keep_copy(patch.overlay_locked, overlay_locked),
        note_effect: keep_copy(patch.note_effect, note_effect),
        note_settings: keep_copy(patch.note_settings, note_settings),
        angle_mode: keep_string(&patch.angle_mode, angle_mode),
        language: keep_string(&patch.language, language),
        laboratory_enabled: keep_copy(patch.laboratory_enabled, laboratory_enabled),
        developer_mode_enabled: keep_copy(patch.developer_mode_enabled, developer_mode_enabled),
        background_color: keep_string(&patch.background_color, background_color),
        use_custom_css: keep_copy(patch.use_custom_css, use_custom_css),
        custom_css: keep_css(&patch.custom_css, custom_css),
        use_custom_js: keep_copy(patch.use_custom_js, use_custom_js),
        custom_js: keep_js(&patch.custom_js, custom_js),
        overlay_resize_anchor: keep_copy(patch.overlay_resize_anchor, overlay_resize_anchor),
        key_counter_enabled: keep_copy(patch.key_counter_enabled, key_counter_enabled),
    }
}

/// Note settings with a patch applied, as `apply_note_patch` computes them.
pub open spec fn apply_note_patch_spec(settings: NoteSettings, patch: NoteSettingsPatch) -> NoteSettings {
    NoteSettings {
        border_radius: settings.border_radius,
        speed: or_keep(patch.speed, settings.speed),
        track_height: or_keep(patch.track_height, settings.track_height),
        reverse: or_keep(patch.reverse, settings.reverse),
        fade_position: or_keep(patch.fade_position, settings.fade_position),
        delayed_note_enabled: or_keep(patch.delayed_note_enabled, settings.delayed_note_enabled),
        short_note_threshold_ms: or_keep(patch.short_note_threshold_ms, settings.short_note_threshold_ms),
        short_note_min_length_px: or_keep(patch.short_note_min_length_px, settings.short_note_min_length_px),
        key_display_delay_ms: or_keep(patch.key_display_delay_ms, settings.key_display_delay_ms),
    }
}

/// The change that `patch` makes to `current`: plain fields as given, note
/// settings, stylesheet and scripts merged into their current values.
pub fn normalize_patch(patch: &SettingsPatchInput, current: &SettingsState) -> (r: SettingsPatch)
    ensures
        r.hardware_acceleration == patch.hardware_acceleration,
        r.always_on_top == patch.always_on_top,
        r.overlay_locked == patch.overlay_locked,
        r.note_effect == patch.note_effect,
        r.note_settings == (match patch.note_settings {
            Some(p) => Some(apply_note_patch_spec(current.note_settings, p)),
            None => None,
        }),
        opt_view(r.angle_mode) == opt_view(patch.angle_mode),
        opt_view(r.language) == opt_view(patch.language),
        r.laboratory_enabled == patch.laboratory_enabled,
        r.developer_mode_enabled == patch.developer_mode_enabled,
        opt_view(r.background_color) == opt_view(patch.background_color),
        r.use_custom_css == patch.use_custom_css,
        r.custom_css.is_some() == patch.custom_css.is_some(),
        r.custom_css.is_some() ==> {
            let c = r.custom_css.unwrap();
            let p = patch.custom_css.unwrap();
            &&& opt_view(c.path) == (match p.path {
                Some(x) => opt_view(x),
                None => opt_view(current.custom_css.path),
            })
            &&& c.content@ == or_keep_str(p.content, current.custom_css.content)
        },
        r.use_custom_js == patch.use_custom_js,
        r.custom_js.is_some() == patch.custom_js.is_some(),
        r.custom_js.is_some() ==> {
            let c = r.custom_js.unwrap();
            let p = patch.custom_js.unwrap();
            &&& opt_view(c.path) == (match p.path {
                Some(x) => opt_view(x),
                None => opt_view(current.custom_js.path),
            })
            &&& c.content@ == or_keep_str(p.content, current.custom_js.content)
            &&& c.plugins@.map_values(|q: JsPlugin| plugin_view(q)) == (match p.plugins {
                Some(ps) => ps@.map_values(|q: JsPlugin| plugin_view(q)),
                None => current.custom_js.plugins@.map_values(|q: JsPlugin| plugin_view(q)),
            })
        },
        r.overlay_resize_anchor == patch.overlay_resize_anchor,
        r.key_counter_enabled == patch.key_counter_enabled,
{
    let hardware_acceleration = patch.hardware_acceleration;
    let always_on_top = patch.always_on_top;
    let overlay_locked = patch.overlay_locked;
    let note_effect = patch.note_effect;
    let note_settings = match &patch.note_settings {
        Some(p) => Some(apply_note_patch(current.note_settings, p)),
        None => None,
    };
    let angle_mode = copy_opt(&patch.angle_mode);
    let language = copy_opt(&patch.language);
    let laboratory_enabled = patch.laboratory_enabled;
    let developer_mode_enabled = patch.developer_mode_enabled;
    let background_color = copy_opt(&patch.background_color);
    let use_custom_css = patch.use_custom_css;
    let custom_css = match &patch.custom_css {
        Some(p) => Some(apply_css_patch(copy_css(&current.custom_css), p)),
        None => None,
    };
    let use_custom_js = patch.use_custom_js;
    let custom_js = match &patch.custom_js {
        Some(p) => Some(apply_js_patch(copy_js(&current.custom_js), p)),
        None => None,
    };
    let overlay_resize_anchor = patch.overlay_resize_anchor;
    let key_counter_enabled = patch.key_counter_enabled;
    SettingsPatch {
        hardware_acceleration,
        always_on_top,
        overlay_locked,
        note_effect,
        note_settings,
        angle_mode,
        language,
        laboratory_enabled,
        developer_mode_enabled,
        background_color,
        use_custom_css,
        custom_css,
        use_custom_js,
        custom_js,
        overlay_resize_anchor,
        key_counter_enabled,
    }
}

/// Present fields among the window and note settings.
pub open spec fn present_count_window(p: SettingsPatch) -> nat {
    indicator(p.hardware_acceleration.is_some())
        + indicator(p.always_on_top.is_some())
        + indicator(p.overlay_locked.is_some())
        + indicator(p.note_effect.is_some())
        + indicator(p.note_settings.is_some())
        + indicator(p.angle_mode.is_some())
        + indicator(p.language.is_some())
        + indicator(p.laboratory_enabled.is_some())
}

/// Present fields among the remaining settings.
pub open spec fn present_count_content(p: SettingsPatch) -> nat {
    indicator(p.developer_mode_enabled.is_some())
        + indicator(p.background_color.is_some())
        + indicator(p.use_custom_css.is_some())
        + indicator(p.custom_css.is_some())
        + indicator(p.use_custom_js.is_some())
        + indicator(p.custom_js.is_some())
        + indicator(p.overlay_resize_anchor.is_some())
        + indicator(p.key_counter_enabled.is_some())
}

/// Number of present fields of a patch.
pub open spec fn present_count(p: SettingsPatch) -> nat {
    present_count_window(p) + present_count_content(p)
}

fn count_window(p: &SettingsPatch) -> (r: usize)
    ensures
        r == present_count_window(*p),
        r <= 8,
{
    let c0 = flag(p.hardware_acceleration.is_some());
    let c1 = flag(p.always_on_top.is_some());
    let c2 = flag(p.overlay_locked.is_some());
    let c3 = flag(p.note_effect.is_some());
    let c4 = flag(p.note_settings.is_some());
    let c5 = flag(p.angle_mode.is_some());
    let c6 = flag(p.language.is_some());
    let c7 = flag(p.laboratory_enabled.is_some());
    c0 + c1 + c2 + c3 + c4 + c5 + c6 + c7
}

fn count_content(p: &SettingsPatch) -> (r: usize)
    ensures
        r == present_count_content(*p),
        r <= 8,
{
    let c0 = flag(p.developer_mode_enabled.is_some());
    let c1 = flag(p.background_color.is_some());
    let c2 = flag(p.use_custom_css.is_some());
    let c3 = flag(p.custom_css.is_some());
    let c4 = flag(p.use_custom_js.is_some());
    let c5 = flag(p.custom_js.is_some());
    let c6 = flag(p.overlay_resize_anchor.is_some());
    let c7 = flag(p.key_counter_enabled.is_some());
    c0 + c1 + c2 + c3 + c4 + c5 + c6 + c7
}

impl SettingsDiff {
    /// How many settings the change touches.
    pub fn changed_count(&self) -> (r: usize)
        ensures
            r == present_count(self.changed),
    {
        count_window(&self.changed) + count_content(&self.changed)
    }
}

} // verus!
