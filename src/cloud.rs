//! Cloud layers: a cover code, its label, and the height of the base.

use crate::text::{text_eq, int_cell, parse_int_cell};
use vstd::prelude::*;
use vstd::string::*;

verus! {

#[derive(Debug)]
pub struct Cloud {
    pub sky_cover: Option<String>,
    pub sky_cover_label: Option<String>,
    pub cloud_base_ft_agl: Option<i32>,
}

/// The label of a cover code; empty for a code not known.
pub open spec fn cover_label(code: Seq<char>) -> Seq<char> {
    if code == "CLR"@ || code == "SKC"@ {
        "Clear"@
    } else if code == "FEW"@ {
        "Few"@
    } else if code == "SCT"@ {
        "Scattered"@
    } else if code == "BKN"@ {
        "Broken"@
    } else if code == "OVC"@ {
        "Overcast"@
    } else if code == "OVX"@ {
        "Obscured"@
    } else {
        Seq::empty()
    }
}

pub open spec fn label_of(cover: Option<Seq<char>>) -> Option<Seq<char>> {
    match cover {
        Some(c) => Some(cover_label(c)),
        None => None,
    }
}

fn cover_label_exec(code: &str) -> (r: String)
    ensures
        r@ == cover_label(code@),
{
    let s = if text_eq(code, "CLR") || text_eq(code, "SKC") {
        "Clear"
    } else if text_eq(code, "FEW") {
        "Few"
    } else if text_eq(code, "SCT") {
        "Scattered"
    } else if text_eq(code, "BKN") {
        "Broken"
    } else if text_eq(code, "OVC") {
        "Overcast"
    } else if text_eq(code, "OVX") {
        "Obscured"
    } else {
        ""
    };
    proof {
        reveal_strlit("");
    }
    String::from_str(s)
}

impl Cloud {
    /// Sets the label from the cover code.
    pub fn sky_cover_label(&mut self)
        ensures
            final(self).sky_cover == old(self).sky_cover,
            final(self).cloud_base_ft_agl == old(self).cloud_base_ft_agl,
            final(self).sky_cover_label.deep_view() == label_of(old(self).sky_cover.deep_view()),
    {
        let label = match &self.sky_cover {
            Some(code) => Some(cover_label_exec(code.as_str())),
            None => None,
        };
        self.sky_cover_label = label;
    }
}

/// The cover code and base height a pair of cells give, or nothing when
/// both are absent.
pub open spec fn layer_of(cover: Option<Seq<char>>, base: Option<Seq<char>>) -> Option<
    (Option<Seq<char>>, Option<i32>),
> {
    if cover is None && int_cell(base) is None {
        None
    } else {
        Some((cover, int_cell(base)))
    }
}

/// Whether a cloud record holds a layer with its label.
pub open spec fn cloud_is(c: Cloud, layer: (Option<Seq<char>>, Option<i32>)) -> bool {
    &&& c.sky_cover.deep_view() == layer.0
    &&& c.cloud_base_ft_agl == layer.1
    &&& c.sky_cover_label.deep_view() == label_of(layer.0)
}

/// Builds the layer of a pair of cells, or nothing when both are absent.
pub fn cloud_from_cells(cover: &Option<String>, base: &Option<String>) -> (r: Option<Cloud>)
    ensures
        match layer_of(cover.deep_view(), base.deep_view()) {
            None => r is None,
            Some(l) => r matches Some(c) && cloud_is(c, l),
        },
{
    let cloud_base = parse_int_cell(base);
    if cover.is_none() && cloud_base.is_none() {
        return None;
    }
    let mut cloud = Cloud { sky_cover: cover.clone(), cloud_base_ft_agl: cloud_base, sky_cover_label: None };
    cloud.sky_cover_label();
    Some(cloud)
}

} // verus!
