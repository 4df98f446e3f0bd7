//! The editable sections of a NUS3BANK sound bank: tone descriptors (DTON),
//! group names (GRP) and project properties (PROP).
use vstd::prelude::*;
use crate::text::{copy_strings, copy_vec};

verus! {

/// One tone descriptor of the DTON section. `data` holds the bit patterns of
/// the descriptor's 32-bit floating-point values (`f32::to_bits`), in order.
pub struct ToneDes {
    pub hash: u32,
    pub unk1: u32,
    pub name: String,
    pub data: Vec<u32>,
    pub raw_data: Vec<u8>,
    pub descriptor_words: Vec<u32>,
}

/// A tone descriptor as plain values.
pub struct ToneView {
    pub hash: u32,
    pub unk1: u32,
    pub name: Seq<char>,
    pub data: Seq<u32>,
    pub raw_data: Seq<u8>,
    pub descriptor_words: Seq<u32>,
}

impl DeepView for ToneDes {
    type V = ToneView;

    open spec fn deep_view(&self) -> ToneView {
        ToneView {
            hash: self.hash,
            unk1: self.unk1,
            name: self.name@,
            data: self.data@,
            raw_data: self.raw_data@,
            descriptor_words: self.descriptor_words@,
        }
    }
}

impl ToneDes {
    /// A field-by-field copy.
    pub fn duplicate(&self) -> (r: ToneDes)
        ensures
            r.deep_view() == self.deep_view(),
    {
        ToneDes {
            hash: self.hash,
            unk1: self.unk1,
            name: self.name.clone(),
            data: copy_vec(&self.data),
            raw_data: copy_vec(&self.raw_data),
            descriptor_words: copy_vec(&self.descriptor_words),
        }
    }
}

/// A copy of a list of tone descriptors.
pub fn copy_tones(v: &Vec<ToneDes>) -> (r: Vec<ToneDes>)
    ensures
        r.deep_view() == v.deep_view(),
{
    let mut r: Vec<ToneDes> = Vec::new();
    let mut i: usize = 0;
    while i < v.len()
        invariant
            i <= v.len(),
            r.len() == i,
            forall|j: int| 0 <= j < i ==> (#[trigger] r@[j]).deep_view() == v@[j].deep_view(),
        decreases v.len() - i,
    {
        let t = v[i].duplicate();
        r.push(t);
        i += 1;
    }
    assert(r.deep_view() =~= v.deep_view());
    r
}

/// The DTON section: every tone descriptor of the bank.
pub struct DtonSection {
    pub tones: Vec<ToneDes>,
}

/// The GRP section: the bank's group names.
pub struct GrpSection {
    pub names: Vec<String>,
}

/// How the PROP section is laid out on disk.
#[derive(Clone, Copy, Debug, PartialEq, Eq, Structural)]
pub enum PropLayout {
    Minimal,
    Extended,
    Bitmask,
}

/// The PROP section: project name, time stamp and header fields.
pub struct PropSection {
    pub project: String,
    pub timestamp: String,
    pub unk1: i32,
    pub reserved_u16: u16,
    pub unk2: u16,
    pub unk3: u16,
    pub layout: PropLayout,
    pub leading_u32: u32,
    pub presence_mask: u32,
    pub version: u32,
    pub bit5_u32: Option<u32>,
    pub bit6_u32: Option<u32>,
}

/// A PROP section as plain values.
pub struct PropView {
    pub project: Seq<char>,
    pub timestamp: Seq<char>,
    pub unk1: i32,
    pub reserved_u16: u16,
    pub unk2: u16,
    pub unk3: u16,
    pub layout: PropLayout,
    pub leading_u32: u32,
    pub presence_mask: u32,
    pub version: u32,
    pub bit5_u32: Option<u32>,
    pub bit6_u32: Option<u32>,
}

impl DeepView for PropSection {
    type V = PropView;

    open spec fn deep_view(&self) -> PropView {
        PropView {
            project: self.project@,
            timestamp: self.timestamp@,
            unk1: self.unk1,
            reserved_u16: self.reserved_u16,
            unk2: self.unk2,
            unk3: self.unk3,
            layout: self.layout,
            leading_u32: self.leading_u32,
            presence_mask: self.presence_mask,
            version: self.version,
            bit5_u32: self.bit5_u32,
            bit6_u32: self.bit6_u32,
        }
    }
}

impl PropSection {
    /// A field-by-field copy.
    pub fn duplicate(&self) -> (r: PropSection)
        ensures
            r.deep_view() == self.deep_view(),
    {
        PropSection {
            project: self.project.clone(),
            timestamp: self.timestamp.clone(),
            unk1: self.unk1,
            reserved_u16: self.reserved_u16,
            unk2: self.unk2,
            unk3: self.unk3,
            layout: self.layout,
            leading_u32: self.leading_u32,
            presence_mask: self.presence_mask,
            version: self.version,
            bit5_u32: self.bit5_u32,
            bit6_u32: self.bit6_u32,
        }
    }
}

/// The editable sections of a sound bank; a section the bank lacks is `None`.
pub struct Nus3bankFile {
    pub dton: Option<DtonSection>,
    pub grp: Option<GrpSection>,
    pub prop: Option<PropSection>,
}

/// A bank section list as plain values.
pub struct BankView {
    pub dton: Option<Seq<ToneView>>,
    pub grp: Option<Seq<Seq<char>>>,
    pub prop: Option<PropView>,
}

impl DeepView for Nus3bankFile {
    type V = BankView;

    open spec fn deep_view(&self) -> BankView {
        BankView {
            dton: match &self.dton {
                Some(d) => Some(d.tones.deep_view()),
                None => None,
            },
            grp: match &self.grp {
                Some(g) => Some(g.names.deep_view()),
                None => None,
            },
            prop: match &self.prop {
                Some(p) => Some(p.deep_view()),
                None => None,
            },
        }
    }
}

impl Nus3bankFile {
    /// The tone descriptors of the bank, an empty list when it has no DTON section.
    pub fn tones(&self) -> (r: Vec<ToneDes>)
        ensures
            r.deep_view() == match self.deep_view().dton {
                Some(t) => t,
                None => Seq::<ToneView>::empty(),
            },
    {
        match &self.dton {
            Some(d) => copy_tones(&d.tones),
            None => {
                let r: Vec<ToneDes> = Vec::new();
                assert(r.deep_view() =~= Seq::<ToneView>::empty());
                r
            },
        }
    }

    /// The group names of the bank, an empty list when it has no GRP section.
    pub fn group_names(&self) -> (r: Vec<String>)
        ensures
            r.deep_view() == match self.deep_view().grp {
                Some(g) => g,
                None => Seq::<Seq<char>>::empty(),
            },
    {
        match &self.grp {
            Some(g) => copy_strings(&g.names),
            None => {
                let r: Vec<String> = Vec::new();
                assert(r.deep_view() =~= Seq::<Seq<char>>::empty());
                r
            },
        }
    }

    /// A copy of the PROP section, if the bank has one.
    pub fn prop_section(&self) -> (r: Option<PropSection>)
        ensures
            r.deep_view() == self.deep_view().prop,
    {
        match &self.prop {
            Some(p) => Some(p.duplicate()),
            None => None,
        }
    }
}

} // verus!
