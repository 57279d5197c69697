//! Stock lumber.
use vstd::prelude::*;

use crate::text::text_eq;

verus! {

/// Kind of stock lumber.
#[derive(Clone, Copy, Debug, PartialEq, Eq, Structural)]
pub enum LumberCategory {
    Dimensional,
    Board,
    Sheet,
}

/// A stock lumber size: its nominal label (`2x4`), category, and actual
/// width and height, held as IEEE-754 binary64 bit patterns of inches.
pub struct LumberSize {
    pub nominal_label: String,
    pub category: LumberCategory,
    pub actual_width: u64,
    pub actual_height: u64,
}

impl LumberSize {
    /// A copy of the size.
    pub fn duplicate(&self) -> (r: LumberSize)
        ensures
            r == *self,
    {
        LumberSize {
            nominal_label: self.nominal_label.clone(),
            category: self.category,
            actual_width: self.actual_width,
            actual_height: self.actual_height,
        }
    }
}

/// A sheet good: its label, and width, height and thickness as IEEE-754
/// binary64 bit patterns of inches.
pub struct SheetSize {
    pub label: String,
    pub width: u64,
    pub height: u64,
    pub thickness: u64,
}

/// Bit patterns of the inch values the catalogue uses.
pub const INCHES_0_25: u64 = 0x3fd0000000000000;
pub const INCHES_0_5: u64 = 0x3fe0000000000000;
pub const INCHES_0_75: u64 = 0x3fe8000000000000;
pub const INCHES_1_5: u64 = 0x3ff8000000000000;
pub const INCHES_2_5: u64 = 0x4004000000000000;
pub const INCHES_3_5: u64 = 0x400c000000000000;
pub const INCHES_5_5: u64 = 0x4016000000000000;
pub const INCHES_7_25: u64 = 0x401d000000000000;
pub const INCHES_9_25: u64 = 0x4022800000000000;
pub const INCHES_11_25: u64 = 0x4026800000000000;
pub const INCHES_48: u64 = 0x4048000000000000;
pub const INCHES_96: u64 = 0x4058000000000000;
pub const INCHES_120: u64 = 0x405e000000000000;
pub const INCHES_144: u64 = 0x4062000000000000;
pub const INCHES_192: u64 = 0x4068000000000000;

/// A lumber size as the contracts see it: label, category, width, height.
pub open spec fn size_view(s: LumberSize) -> (Seq<char>, LumberCategory, u64, u64) {
    (s.nominal_label@, s.category, s.actual_width, s.actual_height)
}

/// A sheet as the contracts see it: label, width, height, thickness.
pub open spec fn sheet_view(s: SheetSize) -> (Seq<char>, u64, u64, u64) {
    (s.label@, s.width, s.height, s.thickness)
}

/// The stock lumber sizes: the 1x boards (0.75" thick), the 2x dimensional
/// lumber (1.5" thick), and 4x4, 4x6 and 6x6.
pub open spec fn stock_sizes() -> Seq<(Seq<char>, LumberCategory, u64, u64)> {
    seq![
        ("1x2"@, LumberCategory::Board, INCHES_0_75, INCHES_1_5),
        ("1x3"@, LumberCategory::Board, INCHES_0_75, INCHES_2_5),
        ("1x4"@, LumberCategory::Board, INCHES_0_75, INCHES_3_5),
        ("1x6"@, LumberCategory::Board, INCHES_0_75, INCHES_5_5),
        ("1x8"@, LumberCategory::Board, INCHES_0_75, INCHES_7_25),
        ("1x10"@, LumberCategory::Board, INCHES_0_75, INCHES_9_25),
        ("1x12"@, LumberCategory::Board, INCHES_0_75, INCHES_11_25),
        ("2x2"@, LumberCategory::Dimensional, INCHES_1_5, INCHES_1_5),
        ("2x3"@, LumberCategory::Dimensional, INCHES_1_5, INCHES_2_5),
        ("2x4"@, LumberCategory::Dimensional, INCHES_1_5, INCHES_3_5),
        ("2x6"@, LumberCategory::Dimensional, INCHES_1_5, INCHES_5_5),
        ("2x8"@, LumberCategory::Dimensional, INCHES_1_5, INCHES_7_25),
        ("2x10"@, LumberCategory::Dimensional, INCHES_1_5, INCHES_9_25),
        ("2x12"@, LumberCategory::Dimensional, INCHES_1_5, INCHES_11_25),
        ("4x4"@, LumberCategory::Dimensional, INCHES_3_5, INCHES_3_5),
        ("4x6"@, LumberCategory::Dimensional, INCHES_3_5, INCHES_5_5),
        ("6x6"@, LumberCategory::Dimensional, INCHES_5_5, INCHES_5_5),
    ]
}

/// The stock sheets: 4' x 8' plywood, 1/4", 1/2" and 3/4" thick.
pub open spec fn stock_sheets() -> Seq<(Seq<char>, u64, u64, u64)> {
    seq![
        ("1/4\" Plywood"@, INCHES_48, INCHES_96, INCHES_0_25),
        ("1/2\" Plywood"@, INCHES_48, INCHES_96, INCHES_0_5),
        ("3/4\" Plywood"@, INCHES_48, INCHES_96, INCHES_0_75),
    ]
}

/// The lengths lumber is sold in: 8', 10', 12' and 16'.
pub open spec fn stock_lengths() -> Seq<u64> {
    seq![INCHES_96, INCHES_120, INCHES_144, INCHES_192]
}

/// The stock lumber, sheets and lengths on offer.
pub struct LumberCatalog {
    pub sizes: Vec<LumberSize>,
    pub sheets: Vec<SheetSize>,
    pub standard_lengths: Vec<u64>,
}

fn size(label: &str, category: LumberCategory, width: u64, height: u64) -> (s: LumberSize)
    ensures
        size_view(s) == (label@, category, width, height),
{
    LumberSize { nominal_label: String::from_str(label), category, actual_width: width, actual_height: height }
}

fn sheet(label: &str, width: u64, height: u64, thickness: u64) -> (s: SheetSize)
    ensures
        sheet_view(s) == (label@, width, height, thickness),
{
    SheetSize { label: String::from_str(label), width, height, thickness }
}

impl LumberCatalog {
    /// The stock catalogue.
    pub fn new() -> (c: LumberCatalog)
        ensures
            c.sizes@.map_values(|s: LumberSize| size_view(s)) == stock_sizes(),
            c.sheets@.map_values(|s: SheetSize| sheet_view(s)) == stock_sheets(),
            c.standard_lengths@ == stock_lengths(),
    {
        let sizes = vec![
            size("1x2", LumberCategory::Board, INCHES_0_75, INCHES_1_5),
            size("1x3", LumberCategory::Board, INCHES_0_75, INCHES_2_5),
            size("1x4", LumberCategory::Board, INCHES_0_75, INCHES_3_5),
            size("1x6", LumberCategory::Board, INCHES_0_75, INCHES_5_5),
            size("1x8", LumberCategory::Board, INCHES_0_75, INCHES_7_25),
            size("1x10", LumberCategory::Board, INCHES_0_75, INCHES_9_25),
            size("1x12", LumberCategory::Board, INCHES_0_75, INCHES_11_25),
            size("2x2", LumberCategory::Dimensional, INCHES_1_5, INCHES_1_5),
            size("2x3", LumberCategory::Dimensional, INCHES_1_5, INCHES_2_5),
            size("2x4", LumberCategory::Dimensional, INCHES_1_5, INCHES_3_5),
            size("2x6", LumberCategory::Dimensional, INCHES_1_5, INCHES_5_5),
            size("2x8", LumberCategory::Dimensional, INCHES_1_5, INCHES_7_25),
            size("2x10", LumberCategory::Dimensional, INCHES_1_5, INCHES_9_25),
            size("2x12", LumberCategory::Dimensional, INCHES_1_5, INCHES_11_25),
            size("4x4", LumberCategory::Dimensional, INCHES_3_5, INCHES_3_5),
            size("4x6", LumberCategory::Dimensional, INCHES_3_5, INCHES_5_5),
            size("6x6", LumberCategory::Dimensional, INCHES_5_5, INCHES_5_5),
        ];
        let sheets = vec![
            sheet("1/4\" Plywood", INCHES_48, INCHES_96, INCHES_0_25),
            sheet("1/2\" Plywood", INCHES_48, INCHES_96, INCHES_0_5),
            sheet("3/4\" Plywood", INCHES_48, INCHES_96, INCHES_0_75),
        ];
        let standard_lengths = vec![INCHES_96, INCHES_120, INCHES_144, INCHES_192];
        assert(sizes@.map_values(|s: LumberSize| size_view(s)) =~= stock_sizes());
        assert(sheets@.map_values(|s: SheetSize| sheet_view(s)) =~= stock_sheets());
        assert(standard_lengths@ =~= stock_lengths());
        LumberCatalog { sizes, sheets, standard_lengths }
    }

    /// The first size with the given nominal label, if any.
    pub fn find_by_label(&self, label: &str) -> (r: Option<&LumberSize>)
        ensures
            r matches Some(s) ==> exists|i: int|
                0 <= i < self.sizes@.len() && self.sizes@[i] == *s && s.nominal_label@ == label@ && forall|j: int|
                    0 <= j < i ==> (#[trigger] self.sizes@[j]).nominal_label@ != label@,
            r is None ==> forall|j: int| 0 <= j < self.sizes@.len() ==> (#[trigger] self.sizes@[j]).nominal_label@ != label@,
    {
        let mut k: usize = 0;
        while k < self.sizes.len()
            invariant
                k <= self.sizes@.len(),
                forall|j: int| 0 <= j < k ==> (#[trigger] self.sizes@[j]).nominal_label@ != label@,
            decreases self.sizes.len() - k,
        {
            if text_eq(self.sizes[k].nominal_label.as_str(), label) {
                return Some(&self.sizes[k]);
            }
            k = k + 1;
        }
        None
    }

    /// The sizes of a category, in catalogue order.
    pub fn sizes_by_category(&self, cat: LumberCategory) -> (r: Vec<&LumberSize>)
        ensures
            r@.map_values(|s: &LumberSize| *s) == self.sizes@.filter(|s: LumberSize| s.category == cat),
    {
        let sizes = &self.sizes;
        let mut r: Vec<&LumberSize> = Vec::new();
        let mut k: usize = 0;
        while k < sizes.len()
            invariant
                k <= sizes@.len(),
                r@.map_values(|s: &LumberSize| *s) == sizes@.take(k as int).filter(|s: LumberSize| s.category == cat),
            decreases sizes.len() - k,
        {
            proof {
                reveal(Seq::filter);
                assert(sizes@.take(k + 1).drop_last() =~= sizes@.take(k as int));
            }
            let ghost r0 = r@;
            if sizes[k].category == cat {
                r.push(&sizes[k]);
                assert(r@.map_values(|s: &LumberSize| *s) =~= r0.map_values(|s: &LumberSize| *s).push(sizes@[k as int]));
            }
            k = k + 1;
        }
        assert(sizes@.take(sizes@.len() as int) =~= sizes@);
        r
    }
}

impl Default for LumberCatalog {
    fn default() -> (c: LumberCatalog)
        ensures
            c.sizes@.map_values(|s: LumberSize| size_view(s)) == stock_sizes(),
            c.sheets@.map_values(|s: SheetSize| sheet_view(s)) == stock_sheets(),
            c.standard_lengths@ == stock_lengths(),
    {
        LumberCatalog::new()
    }
}

} // verus!
