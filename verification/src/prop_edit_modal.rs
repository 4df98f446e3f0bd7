//! State and edit operations of the project-properties (PROP) editor, with
//! its list of header presets. The window is drawn by the front end.
use vstd::prelude::*;
use crate::bank::{Nus3bankFile, PropLayout, PropSection, PropView};
use crate::prop_pending;
use crate::store::KeyedStore;

verus! {

/// A named set of PROP header values that can be applied in one step.
pub struct DebugPreset {
    pub name: String,
    pub project: String,
    pub timestamp: String,
    pub unk1: i32,
    pub reserved_u16: u16,
    pub unk2: u16,
    pub unk3: u16,
    pub layout: PropLayout,
}

/// A preset as plain values.
pub struct PresetView {
    pub name: Seq<char>,
    pub project: Seq<char>,
    pub timestamp: Seq<char>,
    pub unk1: i32,
    pub reserved_u16: u16,
    pub unk2: u16,
    pub unk3: u16,
    pub layout: PropLayout,
}

impl DeepView for DebugPreset {
    type V = PresetView;

    open spec fn deep_view(&self) -> PresetView {
        PresetView {
            name: self.name@,
            project: self.project@,
            timestamp: self.timestamp@,
            unk1: self.unk1,
            reserved_u16: self.reserved_u16,
            unk2: self.unk2,
            unk3: self.unk3,
            layout: self.layout,
        }
    }
}

/// Why the PROP editor could not load or store the section.
#[derive(Debug)]
pub enum PropError {
    /// No file is open in the editor.
    NoFileForEdit,
    /// The sound bank could not be opened; the reason is given.
    OpenFailed(String),
    /// The pending edit could not be recorded.
    Pending(String),
}

/// The PROP editor.
pub struct PropEditModal {
    pub open: bool,
    pub file_path: Option<String>,
    pub prop: Option<PropSection>,
    pub error: Option<PropError>,
    pub dirty: bool,
    pub presets: Vec<DebugPreset>,
    pub selected_preset: Option<usize>,
}

/// The header version every section made from a preset gets.
pub const PROP_VERSION: u32 = 0x0003_0000;

/// The PROP section a preset stands for.
pub open spec fn prop_from_preset(p: PresetView) -> PropView {
    PropView {
        project: p.project,
        timestamp: p.timestamp,
        unk1: p.unk1,
        reserved_u16: p.reserved_u16,
        unk2: p.unk2,
        unk3: p.unk3,
        layout: p.layout,
        leading_u32: 0,
        presence_mask: 0,
        version: PROP_VERSION,
        bit5_u32: None,
        bit6_u32: None,
    }
}

/// The preset values a PROP section has, under a given name.
pub open spec fn preset_from_prop(name: Seq<char>, p: PropView) -> PresetView {
    PresetView {
        name,
        project: p.project,
        timestamp: p.timestamp,
        unk1: p.unk1,
        reserved_u16: p.reserved_u16,
        unk2: p.unk2,
        unk3: p.unk3,
        layout: p.layout,
    }
}

/// The label of a layout in preset names.
pub open spec fn layout_label(l: PropLayout) -> Seq<char> {
    if l == PropLayout::Minimal { "Minimal"@ } else { "Extended"@ }
}

/// The name a section saved as a preset gets: its project and layout.
pub open spec fn custom_preset_name(project: Seq<char>, l: PropLayout) -> Seq<char> {
    project + " ("@ + layout_label(l) + ")"@
}

/// The three presets the editor starts with.
pub open spec fn builtin_presets() -> Seq<PresetView> {
    seq![
        PresetView {
            name: "Preset 1: Test (Minimal)"@,
            project: "Test"@,
            timestamp: Seq::empty(),
            unk1: 17,
            reserved_u16: 1,
            unk2: 3,
            unk3: 0,
            layout: PropLayout::Minimal,
        },
        PresetView {
            name: "Preset 2: DefaultProject (Extended)"@,
            project: "DefaultProject"@,
            timestamp: Seq::empty(),
            unk1: 241,
            reserved_u16: 0,
            unk2: 3,
            unk3: 0,
            layout: PropLayout::Extended,
        },
        PresetView {
            name: "Preset 3: DefaultProject (Extended v2)"@,
            project: "DefaultProject"@,
            timestamp: Seq::empty(),
            unk1: 241,
            reserved_u16: 1,
            unk2: 3,
            unk3: 0,
            layout: PropLayout::Extended,
        },
    ]
}

/// The section "Create default PROP" makes.
pub open spec fn default_prop() -> PropView {
    PropView {
        project: "DefaultProject"@,
        timestamp: Seq::empty(),
        unk1: 241,
        reserved_u16: 0,
        unk2: 3,
        unk3: 0,
        layout: PropLayout::Extended,
        leading_u32: 0,
        presence_mask: 0,
        version: PROP_VERSION,
        bit5_u32: None,
        bit6_u32: None,
    }
}

/// The editor's PROP section as plain values.
pub open spec fn prop_view(p: Option<PropSection>) -> Option<PropView> {
    match p {
        Some(s) => Some(s.deep_view()),
        None => None,
    }
}

fn preset(
    name: &str,
    project: &str,
    unk1: i32,
    reserved_u16: u16,
    layout: PropLayout,
) -> (p: DebugPreset)
    ensures
        p.deep_view() == (PresetView {
            name: name@,
            project: project@,
            timestamp: Seq::empty(),
            unk1,
            reserved_u16,
            unk2: 3,
            unk3: 0,
            layout,
        }),
{
    let timestamp = String::new();
    DebugPreset {
        name: name.to_string(),
        project: project.to_string(),
        timestamp,
        unk1,
        reserved_u16,
        unk2: 3,
        unk3: 0,
        layout,
    }
}


/// The label the preset list shows for preset `idx`.
pub fn preset_label(idx: usize, preset: &DebugPreset) -> (r: String)
    ensures
        r@ == (if idx < 3 { builtin_presets()[idx as int].name } else { preset.name@ }),
{
    if idx == 0 {
        "Preset 1: Test (Minimal)".to_string()
    } else if idx == 1 {
        "Preset 2: DefaultProject (Extended)".to_string()
    } else if idx == 2 {
        "Preset 3: DefaultProject (Extended v2)".to_string()
    } else {
        preset.name.clone()
    }
}

/// Sets or removes the PROP section of a bank.
pub fn apply_prop_to_file(file: &mut Nus3bankFile, prop: Option<PropSection>)
    ensures
        final(file).deep_view().prop == prop_view(prop),
        final(file).deep_view().dton == old(file).deep_view().dton,
        final(file).deep_view().grp == old(file).deep_view().grp,
{
    file.prop = prop;
}

impl PropEditModal {
    /// The pending PROP section of a file, if an edit is waiting for it; the
    /// editor opens the file itself only when there is none.
    pub fn load_prop_for_file(pending: &KeyedStore<PropSection>, file_path: &str) -> (r: Option<PropSection>)
        ensures
            r.deep_view() == (if pending@.contains_key(file_path@) {
                Some(pending@[file_path@].deep_view())
            } else {
                None::<PropView>
            }),
    {
        prop_pending::get(pending, file_path)
    }

    /// A closed editor with no file and the three built-in presets.
    pub fn new() -> (m: Self)
        ensures
            !m.open,
            m.file_path is None,
            m.prop is None,
            m.error is None,
            !m.dirty,
            m.presets.deep_view() == builtin_presets(),
            m.selected_preset is None,
    {
        let mut presets: Vec<DebugPreset> = Vec::new();
        presets.push(preset("Preset 1: Test (Minimal)", "Test", 17, 1, PropLayout::Minimal));
        presets.push(preset("Preset 2: DefaultProject (Extended)", "DefaultProject", 241, 0, PropLayout::Extended));
        presets.push(preset("Preset 3: DefaultProject (Extended v2)", "DefaultProject", 241, 1, PropLayout::Extended));
        assert(presets.deep_view() =~= builtin_presets());
        PropEditModal { open: false, file_path: None, prop: None, error: None, dirty: false, presets, selected_preset: None }
    }

    /// Opens the editor on a file. `loaded` is what loading gave: the
    /// pending section, or that of the bank on disk (`None` when it has
    /// none), or why the bank could not be opened.
    pub fn open_for_file(&mut self, file_path: &str, loaded: Result<Option<PropSection>, String>)
        ensures
            final(self).open,
            final(self).file_path matches Some(p) && p@ == file_path@,
            !final(self).dirty,
            final(self).selected_preset is None,
            final(self).presets == old(self).presets,
            match loaded {
                Ok(p) => final(self).prop_is(prop_view(p)) && final(self).error is None,
                Err(e) => final(self).prop is None && final(self).error == Some(PropError::OpenFailed(e)),
            },
    {
        self.file_path = Some(file_path.to_string());
        self.error = None;
        self.dirty = false;
        self.selected_preset = None;
        match loaded {
            Ok(p) => {
                self.prop = p;
            },
            Err(e) => {
                self.prop = None;
                self.error = Some(PropError::OpenFailed(e));
            },
        }
        self.open = true;
    }

    /// The editor holds the given section.
    pub open spec fn prop_is(self, p: Option<PropView>) -> bool {
        prop_view(self.prop) == p
    }

    /// Replaces the section by the selected preset's values; nothing
    /// happens when no valid preset is selected.
    pub fn apply_preset(&mut self)
        ensures
            final(self).presets == old(self).presets,
            final(self).selected_preset == old(self).selected_preset,
            final(self).file_path == old(self).file_path,
            match old(self).selected_preset {
                Some(i) if i < old(self).presets@.len() => {
                    &&& final(self).prop_is(Some(prop_from_preset(old(self).presets@[i as int].deep_view())))
                    &&& final(self).dirty
                    &&& final(self).error is None
                },
                _ => {
                    &&& final(self).prop == old(self).prop
                    &&& final(self).dirty == old(self).dirty
                    &&& final(self).error == old(self).error
                },
            },
    {
        let idx = match self.selected_preset {
            Some(i) => i,
            None => return,
        };
        if idx >= self.presets.len() {
            return;
        }
        let p = &self.presets[idx];
        self.prop = Some(PropSection {
            project: p.project.clone(),
            timestamp: p.timestamp.clone(),
            unk1: p.unk1,
            reserved_u16: p.reserved_u16,
            unk2: p.unk2,
            unk3: p.unk3,
            layout: p.layout,
            leading_u32: 0,
            presence_mask: 0,
            version: PROP_VERSION,
            bit5_u32: None,
            bit6_u32: None,
        });
        self.dirty = true;
        self.error = None;
    }

    /// Adds the current section's values as a new preset, named after its
    /// project and layout, and selects it; nothing happens without a section.
    pub fn save_as_preset(&mut self)
        ensures
            final(self).prop == old(self).prop,
            final(self).dirty == old(self).dirty,
            final(self).error == old(self).error,
            final(self).file_path == old(self).file_path,
            match old(self).prop {
                Some(p) => {
                    &&& final(self).presets.deep_view() == old(self).presets.deep_view().push(
                        preset_from_prop(custom_preset_name(p.project@, p.layout), p.deep_view()),
                    )
                    &&& final(self).selected_preset == Some((final(self).presets@.len() - 1) as usize)
                },
                None => {
                    &&& final(self).presets == old(self).presets
                    &&& final(self).selected_preset == old(self).selected_preset
                },
            },
    {
        let new_preset = match &self.prop {
            None => return,
            Some(p) => {
                let label = if p.layout == PropLayout::Minimal {
                    "Minimal"
                } else {
                    "Extended"
                };
                let mut name = p.project.clone();
                name.append(" (");
                name.append(label);
                name.append(")");
                assert(name@ =~= custom_preset_name(p.project@, p.layout));
                DebugPreset {
                    name,
                    project: p.project.clone(),
                    timestamp: p.timestamp.clone(),
                    unk1: p.unk1,
                    reserved_u16: p.reserved_u16,
                    unk2: p.unk2,
                    unk3: p.unk3,
                    layout: p.layout,
                }
            },
        };
        let ghost before = self.presets.deep_view();
        self.presets.push(new_preset);
        assert(self.presets.deep_view() =~= before.push(self.presets@[self.presets@.len() - 1].deep_view()));
        self.selected_preset = Some(self.presets.len() - 1);
    }

    /// Replaces the section by a default one for an extended-layout project.
    pub fn create_default_prop(&mut self)
        ensures
            final(self).prop_is(Some(default_prop())),
            final(self).dirty,
            final(self).error is None,
            final(self).presets == old(self).presets,
            final(self).selected_preset == old(self).selected_preset,
            final(self).file_path == old(self).file_path,
    {
        self.prop = Some(PropSection {
            project: "DefaultProject".to_string(),
            timestamp: String::new(),
            unk1: 241,
            reserved_u16: 0,
            unk2: 3,
            unk3: 0,
            layout: PropLayout::Extended,
            leading_u32: 0,
            presence_mask: 0,
            version: PROP_VERSION,
            bit5_u32: None,
            bit6_u32: None,
        });
        self.dirty = true;
        self.error = None;
    }

    /// Records the edited section as pending for the open file, when there
    /// is a change and a section.
    pub fn flush_pending(&mut self, pending: &mut KeyedStore<PropSection>)
        ensures
            final(self).prop == old(self).prop,
            final(self).file_path == old(self).file_path,
            if !old(self).dirty {
                &&& final(pending)@ == old(pending)@
                &&& final(self).error == old(self).error
                &&& !final(self).dirty
            } else {
                match (old(self).file_path, old(self).prop) {
                    (None, _) => {
                        &&& final(pending)@ == old(pending)@
                        &&& final(self).error == Some(PropError::NoFileForEdit)
                        &&& final(self).dirty
                    },
                    (Some(_), None) => {
                        &&& final(pending)@ == old(pending)@
                        &&& final(self).error == old(self).error
                        &&& final(self).dirty
                    },
                    (Some(path), Some(p)) => {
                        &&& final(pending)@.dom() == old(pending)@.dom().insert(path@)
                        &&& final(pending)@[path@].deep_view() == p.deep_view()
                        &&& forall|k: Seq<char>| k != path@ ==> #[trigger] final(pending)@.contains_key(k)
                            ==> final(pending)@[k] == old(pending)@[k]
                        &&& final(self).error is None
                        &&& !final(self).dirty
                    },
                }
            },
    {
        if !self.dirty {
            return;
        }
        let path = match &self.file_path {
            None => {
                self.error = Some(PropError::NoFileForEdit);
                return;
            },
            Some(p) => p,
        };
        let copy = match &self.prop {
            None => return,
            Some(p) => p.duplicate(),
        };
        match prop_pending::set(pending, path.as_str(), copy) {
            Ok(()) => {
                self.error = None;
                self.dirty = false;
            },
            Err(e) => {
                self.error = Some(PropError::Pending(e));
            },
        }
    }

    /// Drops the pending edit of the open file and reloads its section from
    /// disk; `opened` is what opening the bank gave (its section, or why it
    /// failed).
    pub fn reload_from_file(&mut self, pending: &mut KeyedStore<PropSection>, opened: Result<Option<PropSection>, String>)
        ensures
            final(self).file_path == old(self).file_path,
            final(self).presets == old(self).presets,
            match old(self).file_path {
                None => {
                    &&& final(self).error == Some(PropError::NoFileForEdit)
                    &&& final(pending)@ == old(pending)@
                    &&& final(self).prop == old(self).prop
                    &&& final(self).dirty == old(self).dirty
                },
                Some(p) => {
                    &&& final(pending)@ == old(pending)@.remove(p@)
                    &&& match opened {
                        Ok(s) => {
                            &&& final(self).prop_is(prop_view(s))
                            &&& final(self).error is None
                            &&& !final(self).dirty
                            &&& final(self).selected_preset is None
                        },
                        Err(e) => {
                            &&& final(self).error == Some(PropError::OpenFailed(e))
                            &&& final(self).prop == old(self).prop
                            &&& final(self).dirty == old(self).dirty
                        },
                    }
                },
            },
    {
        let path = match &self.file_path {
            None => {
                self.error = Some(PropError::NoFileForEdit);
                return;
            },
            Some(p) => p.clone(),
        };
        self.error = None;
        let _ = prop_pending::clear(pending, path.as_str());
        match opened {
            Ok(s) => {
                self.prop = s;
                self.dirty = false;
                self.selected_preset = None;
            },
            Err(e) => {
                self.error = Some(PropError::OpenFailed(e));
            },
        }
    }
}

/// The PROP section after choosing a layout in the editor: the layout is
/// set; choosing the bitmask layout also sets the mask's lowest bit, and
/// moves a version outside the 3.x family to `0x0003_0000`.
pub open spec fn with_layout(p: PropView, layout: PropLayout) -> PropView {
    if layout == PropLayout::Bitmask {
        PropView {
            layout,
            presence_mask: p.presence_mask | 1,
            version: if p.version & 0xFFFF_0000 != 0x0003_0000 { 0x0003_0000 } else { p.version },
            ..p
        }
    } else {
        PropView { layout, ..p }
    }
}

/// Chooses the layout of a PROP section (see `with_layout`).
pub fn select_layout(prop: &mut PropSection, layout: PropLayout)
    ensures
        final(prop).deep_view() == with_layout(old(prop).deep_view(), layout),
{
    prop.layout = layout;
    if layout == PropLayout::Bitmask {
        prop.presence_mask = prop.presence_mask | 1;
        if prop.version & 0xFFFF_0000 != 0x0003_0000 {
            prop.version = 0x0003_0000;
        }
    }
}

} // verus!
