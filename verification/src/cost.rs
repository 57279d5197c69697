//! Lumber prices per board foot: stock defaults and user overrides.
use vstd::prelude::*;

use crate::text::{push_text, text_eq};

verus! {

/// The price of a species per board foot, as an IEEE-754 binary64 bit
/// pattern of dollars, and whether the user set it.
pub struct SpeciesPrice {
    pub species_id: String,
    pub species_name: String,
    pub price_per_bf: u64,
    pub is_user_edited: bool,
}

/// A price as the contracts see it.
pub struct PriceEntry {
    pub id: Seq<char>,
    pub name: Seq<char>,
    pub price_per_bf: u64,
    pub is_user_edited: bool,
}

impl View for SpeciesPrice {
    type V = PriceEntry;

    open spec fn view(&self) -> PriceEntry {
        PriceEntry {
            id: self.species_id@,
            name: self.species_name@,
            price_per_bf: self.price_per_bf,
            is_user_edited: self.is_user_edited,
        }
    }
}

/// The stock prices, in approximate US retail dollars per board foot:
/// id, display name and price (pine 3.50, Douglas fir 4.00, red oak 6.50,
/// white oak 7.00, hard maple 7.50, black walnut 12.00, cherry 8.50,
/// western red cedar 5.50, poplar 4.50, birch 5.50, ash 6.00,
/// mahogany 14.00).
pub open spec fn default_price_list() -> Seq<(Seq<char>, Seq<char>, u64)> {
    seq![
        ("pine"@, "Pine"@, 0x400c000000000000u64),
        ("douglas_fir"@, "Douglas Fir"@, 0x4010000000000000u64),
        ("red_oak"@, "Red Oak"@, 0x401a000000000000u64),
        ("white_oak"@, "White Oak"@, 0x401c000000000000u64),
        ("hard_maple"@, "Hard Maple"@, 0x401e000000000000u64),
        ("black_walnut"@, "Black Walnut"@, 0x4028000000000000u64),
        ("cherry"@, "Cherry"@, 0x4021000000000000u64),
        ("western_red_cedar"@, "Western Red Cedar"@, 0x4016000000000000u64),
        ("poplar"@, "Poplar"@, 0x4012000000000000u64),
        ("birch"@, "Birch"@, 0x4016000000000000u64),
        ("ash"@, "Ash"@, 0x4018000000000000u64),
        ("mahogany"@, "Mahogany"@, 0x402c000000000000u64),
    ]
}

/// A stock price as an entry that the user has not edited.
pub open spec fn stock_entry(d: (Seq<char>, Seq<char>, u64)) -> PriceEntry {
    PriceEntry { id: d.0, name: d.1, price_per_bf: d.2, is_user_edited: false }
}

/// The stock entry for `id`, if the stock list has one.
pub open spec fn default_entry(id: Seq<char>) -> Option<PriceEntry> {
    if default_prices().contains_key(id) {
        Some(default_prices()[id])
    } else {
        None
    }
}

/// The stock prices as entries, in list order.
pub open spec fn stock_entries() -> Seq<PriceEntry> {
    default_price_list().map_values(|d: (Seq<char>, Seq<char>, u64)| stock_entry(d))
}

/// Entries by id; a later entry for an id replaces an earlier one.
pub open spec fn price_map(s: Seq<PriceEntry>) -> Map<Seq<char>, PriceEntry>
    decreases s.len(),
{
    if s.len() == 0 {
        Map::empty()
    } else {
        price_map(s.drop_last()).insert(s.last().id, s.last())
    }
}

/// The stock prices by id.
pub open spec fn default_prices() -> Map<Seq<char>, PriceEntry> {
    price_map(stock_entries())
}

/// The prices after the user sets `price` for `id`: a known species keeps
/// its name; an unknown one is added under its id as its name.
pub open spec fn priced(m: Map<Seq<char>, PriceEntry>, id: Seq<char>, price: u64) -> Map<Seq<char>, PriceEntry> {
    if m.contains_key(id) {
        m.insert(id, PriceEntry { price_per_bf: price, is_user_edited: true, ..m[id] })
    } else {
        m.insert(id, PriceEntry { id, name: id, price_per_bf: price, is_user_edited: true })
    }
}

/// The prices after `id` is reset: its stock entry where the stock list has
/// one, else unchanged.
pub open spec fn reset(m: Map<Seq<char>, PriceEntry>, id: Seq<char>) -> Map<Seq<char>, PriceEntry> {
    match default_entry(id) {
        Some(e) => m.insert(id, e),
        None => m,
    }
}

/// Whether no two entries share an id.
pub open spec fn distinct_ids(s: Seq<PriceEntry>) -> bool {
    forall|i: int, j: int| 0 <= i < s.len() && 0 <= j < s.len() && i != j ==> (#[trigger] s[i]).id != (#[trigger] s[j]).id
}

/// The views of a list of prices.
pub open spec fn entries(v: Seq<SpeciesPrice>) -> Seq<PriceEntry> {
    v.map_values(|p: SpeciesPrice| p@)
}

/// With distinct ids, the map has exactly the listed entries, one per
/// entry.
pub proof fn lemma_price_map_distinct(s: Seq<PriceEntry>)
    requires
        distinct_ids(s),
    ensures
        forall|i: int| 0 <= i < s.len() ==> #[trigger] price_map(s).contains_key(s[i].id) && price_map(s)[s[i].id] == s[i],
        forall|k: Seq<char>| #[trigger] price_map(s).contains_key(k) ==> exists|i: int| 0 <= i < s.len() && s[i].id == k,
        price_map(s).dom().finite(),
        price_map(s).len() == s.len(),
    decreases s.len(),
{
    if s.len() > 0 {
        let p = s.drop_last();
        assert(distinct_ids(p)) by {
            assert forall|i: int, j: int| 0 <= i < p.len() && 0 <= j < p.len() && i != j implies (#[trigger] p[i]).id != (#[trigger] p[j]).id by {
                assert(p[i] == s[i] && p[j] == s[j]);
            }
        }
        lemma_price_map_distinct(p);
        let l = s.last();
        assert(!price_map(p).contains_key(l.id)) by {
            if price_map(p).contains_key(l.id) {
                let i = choose|i: int| 0 <= i < p.len() && p[i].id == l.id;
                assert(s[i].id == s[s.len() - 1].id);
            }
        }
        assert forall|i: int| 0 <= i < s.len() implies #[trigger] price_map(s).contains_key(s[i].id) && price_map(s)[s[i].id] == s[i] by {
            if i < s.len() - 1 {
                assert(p[i] == s[i]);
                assert(s[i].id != l.id);
            }
        }
        assert forall|k: Seq<char>| #[trigger] price_map(s).contains_key(k) implies exists|i: int| 0 <= i < s.len() && s[i].id == k by {
            if k != l.id {
                let i = choose|i: int| 0 <= i < p.len() && p[i].id == k;
                assert(s[i] == p[i]);
            } else {
                assert(s[s.len() - 1].id == k);
            }
        }
    }
}

/// Replacing the entry at `i` by one with the same id replaces it in the
/// map too, and the ids stay distinct.
proof fn lemma_update_entry(s: Seq<PriceEntry>, i: int, e: PriceEntry)
    requires
        distinct_ids(s),
        0 <= i < s.len(),
        e.id == s[i].id,
    ensures
        distinct_ids(s.update(i, e)),
        price_map(s.update(i, e)) == price_map(s).insert(e.id, e),
    decreases s.len(),
{
    let u = s.update(i, e);
    assert forall|a: int, b: int| 0 <= a < u.len() && 0 <= b < u.len() && a != b implies (#[trigger] u[a]).id != (#[trigger] u[b]).id by {
        assert(u[a].id == s[a].id && u[b].id == s[b].id);
    }
    lemma_price_map_distinct(s);
    lemma_price_map_distinct(u);
    assert forall|k: Seq<char>| #[trigger] price_map(u).contains_key(k) <==> price_map(s).insert(e.id, e).contains_key(k) by {
        if price_map(u).contains_key(k) {
            let j = choose|j: int| 0 <= j < u.len() && u[j].id == k;
            assert(s[j].id == k);
        }
        if price_map(s).contains_key(k) {
            let j = choose|j: int| 0 <= j < s.len() && s[j].id == k;
            assert(u[j].id == k);
        }
        if k == e.id {
            assert(u[i].id == k);
        }
    }
    assert forall|k: Seq<char>| #[trigger] price_map(u).contains_key(k) implies price_map(u)[k] == price_map(s).insert(e.id, e)[k] by {
        let j = choose|j: int| 0 <= j < u.len() && u[j].id == k;
        if j != i {
            assert(u[j] == s[j]);
            assert(s[j].id != s[i].id);
        }
    }
    assert(price_map(u) =~= price_map(s).insert(e.id, e));
}

/// Appending an entry with a new id adds it to the map, and the ids stay
/// distinct.
proof fn lemma_push_entry(s: Seq<PriceEntry>, e: PriceEntry)
    requires
        distinct_ids(s),
        !price_map(s).contains_key(e.id),
    ensures
        distinct_ids(s.push(e)),
        price_map(s.push(e)) == price_map(s).insert(e.id, e),
{
    let u = s.push(e);
    lemma_price_map_distinct(s);
    assert(u.drop_last() =~= s);
    assert forall|a: int, b: int| 0 <= a < u.len() && 0 <= b < u.len() && a != b implies (#[trigger] u[a]).id != (#[trigger] u[b]).id by {
        if a < s.len() && b < s.len() {
            assert(u[a] == s[a] && u[b] == s[b]);
        } else if a < s.len() {
            assert(u[a] == s[a]);
            assert(price_map(s).contains_key(s[a].id));
        } else {
            assert(u[b] == s[b]);
            assert(price_map(s).contains_key(s[b].id));
        }
    }
}

/// Prices per species, stock defaults overridden by the user.
pub struct PriceDatabase {
    prices: Vec<SpeciesPrice>,
}
/// The stock price table, as listed in `default_price_list`.
fn default_price_table() -> (t: Vec<(&'static str, &'static str, u64)>)
    ensures
        t@.len() == default_price_list().len(),
        forall|i: int| 0 <= i < t@.len() ==> (#[trigger] t@[i]).0@ == default_price_list()[i].0 && t@[i].1@
            == default_price_list()[i].1 && t@[i].2 == default_price_list()[i].2,
{
    vec![
        ("pine", "Pine", 0x400c000000000000u64),
        ("douglas_fir", "Douglas Fir", 0x4010000000000000u64),
        ("red_oak", "Red Oak", 0x401a000000000000u64),
        ("white_oak", "White Oak", 0x401c000000000000u64),
        ("hard_maple", "Hard Maple", 0x401e000000000000u64),
        ("black_walnut", "Black Walnut", 0x4028000000000000u64),
        ("cherry", "Cherry", 0x4021000000000000u64),
        ("western_red_cedar", "Western Red Cedar", 0x4016000000000000u64),
        ("poplar", "Poplar", 0x4012000000000000u64),
        ("birch", "Birch", 0x4016000000000000u64),
        ("ash", "Ash", 0x4018000000000000u64),
        ("mahogany", "Mahogany", 0x402c000000000000u64),
    ]
}

impl PriceDatabase {
    #[verifier::type_invariant]
    spec fn ids_distinct(self) -> bool {
        distinct_ids(entries(self.prices@))
    }

    /// The prices by species id.
    pub closed spec fn prices(&self) -> Map<Seq<char>, PriceEntry> {
        price_map(entries(self.prices@))
    }

    /// Where the entry for `id` is held, if there is one.
    fn index_of(&self, id: &str) -> (r: Option<usize>)
        ensures
            r matches Some(i) ==> i < self.prices@.len() && self.prices@[i as int].species_id@ == id@
                && self.prices().contains_key(id@) && self.prices()[id@] == self.prices@[i as int]@,
            r is None ==> !self.prices().contains_key(id@),
    {
        proof {
            use_type_invariant(self);
            lemma_price_map_distinct(entries(self.prices@));
        }
        let mut i: usize = 0;
        while i < self.prices.len()
            invariant
                i <= self.prices@.len(),
                forall|j: int| 0 <= j < i ==> (#[trigger] self.prices@[j]).species_id@ != id@,
            decreases self.prices.len() - i,
        {
            if text_eq(self.prices[i].species_id.as_str(), id) {
                proof {
                    use_type_invariant(self);
                    lemma_price_map_distinct(entries(self.prices@));
                    assert(entries(self.prices@)[i as int] == self.prices@[i as int]@);
                    assert(self.prices@[i as int].species_id@ == id@);
                    assert(price_map(entries(self.prices@)).contains_key(entries(self.prices@)[i as int].id));
                }
                return Some(i);
            }
            i = i + 1;
        }
        proof {
            if self.prices().contains_key(id@) {
                let j = choose|j: int| 0 <= j < entries(self.prices@).len() && entries(self.prices@)[j].id == id@;
                assert(entries(self.prices@)[j] == self.prices@[j]@);
            }
        }
        None
    }

    /// Stores `e` under its id, replacing what was there.
    fn put(&mut self, e: SpeciesPrice)
        ensures
            final(self).prices() == old(self).prices().insert(e@.id, e@),
    {
        proof {
            use_type_invariant(&*self);
        }
        let found = self.index_of(e.species_id.as_str());
        let mut v: Vec<SpeciesPrice> = Vec::new();
        std::mem::swap(&mut v, &mut self.prices);
        match found {
            Some(i) => {
                proof {
                    lemma_update_entry(entries(v@), i as int, e@);
                    assert(entries(v@.update(i as int, e)) =~= entries(v@).update(i as int, e@));
                }
                v.set(i, e);
            },
            None => {
                proof {
                    lemma_push_entry(entries(v@), e@);
                    assert(entries(v@.push(e)) =~= entries(v@).push(e@));
                }
                v.push(e);
            },
        }
        self.prices = v;
    }

    /// The stock prices, none of them edited.
    pub fn new() -> (db: PriceDatabase)
        ensures
            db.prices() == default_prices(),
    {
        let table = default_price_table();
        let mut db = PriceDatabase { prices: Vec::new() };
        let mut i: usize = 0;
        while i < table.len()
            invariant
                i <= table@.len(),
                table@.len() == default_price_list().len(),
                forall|k: int| 0 <= k < table@.len() ==> (#[trigger] table@[k]).0@ == default_price_list()[k].0
                    && table@[k].1@ == default_price_list()[k].1 && table@[k].2 == default_price_list()[k].2,
                db.prices() == price_map(stock_entries().take(i as int)),
            decreases table.len() - i,
        {
            let (id, name, price) = table[i];
            let e = SpeciesPrice {
                species_id: String::from_str(id),
                species_name: String::from_str(name),
                price_per_bf: price,
                is_user_edited: false,
            };
            assert(e@ == stock_entries()[i as int]);
            db.put(e);
            assert(stock_entries().take(i + 1).drop_last() =~= stock_entries().take(i as int));
            i = i + 1;
        }
        assert(stock_entries().take(stock_entries().len() as int) =~= stock_entries());
        db
    }

    /// The price of a species, if there is one.
    pub fn get_price(&self, species_id: &str) -> (r: Option<&SpeciesPrice>)
        ensures
            r matches Some(p) ==> self.prices().contains_key(species_id@) && p@ == self.prices()[species_id@],
            r is None ==> !self.prices().contains_key(species_id@),
    {
        match self.index_of(species_id) {
            Some(i) => Some(&self.prices[i]),
            None => None,
        }
    }

    /// Sets the user's price for a species (see `priced`).
    pub fn set_price(&mut self, species_id: &str, price_per_bf: u64)
        ensures
            final(self).prices() == priced(old(self).prices(), species_id@, price_per_bf),
    {
        let e = match self.index_of(species_id) {
            Some(i) => SpeciesPrice {
                species_id: self.prices[i].species_id.clone(),
                species_name: self.prices[i].species_name.clone(),
                price_per_bf,
                is_user_edited: true,
            },
            None => SpeciesPrice {
                species_id: String::from_str(species_id),
                species_name: String::from_str(species_id),
                price_per_bf,
                is_user_edited: true,
            },
        };
        self.put(e);
    }

    /// Puts a species back to its stock price (see `reset`).
    pub fn reset_price(&mut self, species_id: &str)
        ensures
            final(self).prices() == reset(old(self).prices(), species_id@),
    {
        let table = default_price_table();
        proof {
            lemma_stock_ids_distinct();
            lemma_price_map_distinct(stock_entries());
        }
        let mut i: usize = 0;
        while i < table.len()
            invariant
                i <= table@.len(),
                table@.len() == default_price_list().len(),
                forall|k: int| 0 <= k < table@.len() ==> (#[trigger] table@[k]).0@ == default_price_list()[k].0
                    && table@[k].1@ == default_price_list()[k].1 && table@[k].2 == default_price_list()[k].2,
                forall|k: int| 0 <= k < i ==> (#[trigger] default_price_list()[k]).0 != species_id@,
                self.prices() == old(self).prices(),
            decreases table.len() - i,
        {
            let (id, name, price) = table[i];
            if text_eq(id, species_id) {
                let e = SpeciesPrice {
                    species_id: String::from_str(id),
                    species_name: String::from_str(name),
                    price_per_bf: price,
                    is_user_edited: false,
                };
                proof {
                    lemma_stock_ids_distinct();
                    lemma_price_map_distinct(stock_entries());
                    assert(stock_entries()[i as int].id == species_id@);
                }
                assert(e@ == stock_entries()[i as int]);
                self.put(e);
                return;
            }
            i = i + 1;
        }
        proof {
            if default_prices().contains_key(species_id@) {
                let j = choose|j: int| 0 <= j < stock_entries().len() && stock_entries()[j].id == species_id@;
                assert(default_price_list()[j].0 == species_id@);
            }
        }
    }

    /// Every price, each once, in no particular order.
    pub fn all_prices(&self) -> (r: Vec<&SpeciesPrice>)
        ensures
            r@.len() == self.prices().len(),
            forall|i: int| 0 <= i < r@.len() ==> self.prices().contains_key((#[trigger] r@[i])@.id)
                && self.prices()[r@[i]@.id] == r@[i]@,
            forall|i: int, j: int| 0 <= i < r@.len() && 0 <= j < r@.len() && i != j ==> (#[trigger] r@[i])@.id
                != (#[trigger] r@[j])@.id,
    {
        proof {
            use_type_invariant(self);
            lemma_price_map_distinct(entries(self.prices@));
        }
        let mut r: Vec<&SpeciesPrice> = Vec::new();
        let mut i: usize = 0;
        while i < self.prices.len()
            invariant
                i <= self.prices@.len(),
                r@.len() == i,
                forall|k: int| 0 <= k < i ==> #[trigger] r@[k] == self.prices@[k],
            decreases self.prices.len() - i,
        {
            r.push(&self.prices[i]);
            i = i + 1;
        }
        proof {
            assert forall|a: int| 0 <= a < r@.len() implies self.prices().contains_key((#[trigger] r@[a])@.id)
                && self.prices()[r@[a]@.id] == r@[a]@ by {
                assert(entries(self.prices@)[a] == self.prices@[a]@);
            }
            assert forall|a: int, b: int| 0 <= a < r@.len() && 0 <= b < r@.len() && a != b implies (#[trigger] r@[a])@.id
                != (#[trigger] r@[b])@.id by {
                assert(entries(self.prices@)[a] == self.prices@[a]@);
                assert(entries(self.prices@)[b] == self.prices@[b]@);
            }
        }
        r
    }
}

impl Default for PriceDatabase {
    fn default() -> (db: PriceDatabase)
        ensures
            db.prices() == default_prices(),
    {
        PriceDatabase::new()
    }
}

/// Setting a price touches only that species, and reading it back gives the
/// price just set, marked as the user's.
pub proof fn lemma_set_then_get(m: Map<Seq<char>, PriceEntry>, id: Seq<char>, price: u64, other: Seq<char>)
    requires
        other != id,
    ensures
        priced(m, id, price).contains_key(id),
        priced(m, id, price)[id].price_per_bf == price,
        priced(m, id, price)[id].is_user_edited,
        priced(m, id, price).contains_key(other) == m.contains_key(other),
        m.contains_key(other) ==> priced(m, id, price)[other] == m[other],
{
}

/// For a stocked species, a reset after the user sets a price gives what a
/// reset alone gives: the stock entry back, the other species untouched.
pub proof fn lemma_reset_after_set(m: Map<Seq<char>, PriceEntry>, id: Seq<char>, price: u64)
    requires
        default_entry(id) is Some,
    ensures
        reset(priced(m, id, price), id) == reset(m, id),
        reset(m, id)[id] == default_entry(id).unwrap(),
        !reset(m, id)[id].is_user_edited,
{
    lemma_stock_ids_distinct();
    lemma_price_map_distinct(stock_entries());
    let j = choose|j: int| 0 <= j < stock_entries().len() && stock_entries()[j].id == id;
    assert(!stock_entries()[j].is_user_edited);
    assert(reset(priced(m, id, price), id) =~= reset(m, id));
}

/// What a kind of joint needs from the hardware store: per joint, how many
/// pieces, what they are called, and the unit price (as an IEEE-754
/// binary64 bit pattern of dollars). Pocket holes take two screws at 0.15,
/// dowel joints two pins at 0.25, biscuit joints one biscuit at 0.10;
/// other joints are glued.
pub open spec fn hardware_kind(joint_type: Seq<char>) -> Option<(nat, Seq<char>, u64)> {
    if joint_type == "PocketHole"@ {
        Some((2, "Pocket screws"@, 0x3fc3333333333333u64))
    } else if joint_type == "DowelJoint"@ {
        Some((2, "Dowel pins"@, 0x3fd0000000000000u64))
    } else if joint_type == "BiscuitJoint"@ {
        Some((1, "Biscuits"@, 0x3fb999999999999au64))
    } else {
        None
    }
}

/// A hardware line: the item, how many, and the unit price bits.
pub struct HardwareNeed {
    pub item: String,
    pub quantity: u32,
    pub unit_price: u64,
}

/// A hardware line as the contracts see it.
pub open spec fn need_view(n: HardwareNeed) -> (Seq<char>, int, u64) {
    (n.item@, n.quantity as int, n.unit_price)
}

/// The hardware lines for joint counts `(joint type, display name, count)`,
/// in order: `"<item> (for <display name> joints)"`, per-joint pieces times
/// the count, and the unit price; glued joints add no line.
pub open spec fn hardware_list(joints: Seq<(Seq<char>, Seq<char>, u32)>) -> Seq<(Seq<char>, int, u64)>
    decreases joints.len(),
{
    if joints.len() == 0 {
        Seq::empty()
    } else {
        let rest = hardware_list(joints.drop_last());
        let (kind, name, count) = joints.last();
        match hardware_kind(kind) {
            Some((per, item, price)) => rest.push((item + " (for "@ + name + " joints)"@, per * count, price)),
            None => rest,
        }
    }
}

/// The hardware that joints need, from their counts by type (see
/// `hardware_list`). A count whose pieces would not fit in a `u32` is not
/// accepted.
pub fn hardware_needs(joints: &Vec<(String, String, u32)>) -> (r: Vec<HardwareNeed>)
    requires
        forall|i: int| 0 <= i < joints@.len() ==> 2 * (#[trigger] joints@[i]).2 <= u32::MAX,
    ensures
        r@.map_values(|n: HardwareNeed| need_view(n)) == hardware_list(
            joints@.map_values(|j: (String, String, u32)| (j.0@, j.1@, j.2)),
        ),
{
    let ghost js = joints@.map_values(|j: (String, String, u32)| (j.0@, j.1@, j.2));
    let mut r: Vec<HardwareNeed> = Vec::new();
    let mut i: usize = 0;
    while i < joints.len()
        invariant
            i <= joints@.len(),
            js == joints@.map_values(|j: (String, String, u32)| (j.0@, j.1@, j.2)),
            forall|k: int| 0 <= k < joints@.len() ==> 2 * (#[trigger] joints@[k]).2 <= u32::MAX,
            r@.map_values(|n: HardwareNeed| need_view(n)) == hardware_list(js.take(i as int)),
        decreases joints.len() - i,
    {
        let (kind, name, count) = (&joints[i].0, &joints[i].1, joints[i].2);
        assert(js.take(i + 1).drop_last() =~= js.take(i as int));
        assert(js.take(i + 1).last() == js[i as int]);
        let found: Option<(u32, &str, u64)> = if text_eq(kind.as_str(), "PocketHole") {
            Some((2, "Pocket screws", 0x3fc3333333333333u64))
        } else if text_eq(kind.as_str(), "DowelJoint") {
            Some((2, "Dowel pins", 0x3fd0000000000000u64))
        } else if text_eq(kind.as_str(), "BiscuitJoint") {
            Some((1, "Biscuits", 0x3fb999999999999au64))
        } else {
            None
        };
        match found {
            Some((per, item, price)) => {
                let mut text = String::new();
                push_text(&mut text, item);
                push_text(&mut text, " (for ");
                push_text(&mut text, name.as_str());
                push_text(&mut text, " joints)");
                r.push(HardwareNeed { item: text, quantity: per * count, unit_price: price });
            },
            None => {},
        }
        assert(r@.map_values(|n: HardwareNeed| need_view(n)) =~= hardware_list(js.take(i + 1)));
        i = i + 1;
    }
    assert(js.take(js.len() as int) =~= js);
    r
}

/// The stock price of every species, looked up by its id, in dollars per
/// board foot (as bit patterns): pine 3.50, Douglas fir 4.00, red oak 6.50,
/// white oak 7.00, hard maple 7.50, black walnut 12.00, cherry 8.50,
/// western red cedar 5.50, poplar 4.50, birch 5.50, ash 6.00, mahogany
/// 14.00; there are no other stock species, and none is marked as edited.
pub proof fn lemma_stock_prices()
    ensures
        default_prices().contains_key("pine"@) && default_prices()["pine"@] == (PriceEntry { id: "pine"@, name: "Pine"@, price_per_bf: 0x400c000000000000u64, is_user_edited: false }),
        default_prices().contains_key("douglas_fir"@) && default_prices()["douglas_fir"@] == (PriceEntry { id: "douglas_fir"@, name: "Douglas Fir"@, price_per_bf: 0x4010000000000000u64, is_user_edited: false }),
        default_prices().contains_key("red_oak"@) && default_prices()["red_oak"@] == (PriceEntry { id: "red_oak"@, name: "Red Oak"@, price_per_bf: 0x401a000000000000u64, is_user_edited: false }),
        default_prices().contains_key("white_oak"@) && default_prices()["white_oak"@] == (PriceEntry { id: "white_oak"@, name: "White Oak"@, price_per_bf: 0x401c000000000000u64, is_user_edited: false }),
        default_prices().contains_key("hard_maple"@) && default_prices()["hard_maple"@] == (PriceEntry { id: "hard_maple"@, name: "Hard Maple"@, price_per_bf: 0x401e000000000000u64, is_user_edited: false }),
        default_prices().contains_key("black_walnut"@) && default_prices()["black_walnut"@] == (PriceEntry { id: "black_walnut"@, name: "Black Walnut"@, price_per_bf: 0x4028000000000000u64, is_user_edited: false }),
        default_prices().contains_key("cherry"@) && default_prices()["cherry"@] == (PriceEntry { id: "cherry"@, name: "Cherry"@, price_per_bf: 0x4021000000000000u64, is_user_edited: false }),
        default_prices().contains_key("western_red_cedar"@) && default_prices()["western_red_cedar"@] == (PriceEntry { id: "western_red_cedar"@, name: "Western Red Cedar"@, price_per_bf: 0x4016000000000000u64, is_user_edited: false }),
        default_prices().contains_key("poplar"@) && default_prices()["poplar"@] == (PriceEntry { id: "poplar"@, name: "Poplar"@, price_per_bf: 0x4012000000000000u64, is_user_edited: false }),
        default_prices().contains_key("birch"@) && default_prices()["birch"@] == (PriceEntry { id: "birch"@, name: "Birch"@, price_per_bf: 0x4016000000000000u64, is_user_edited: false }),
        default_prices().contains_key("ash"@) && default_prices()["ash"@] == (PriceEntry { id: "ash"@, name: "Ash"@, price_per_bf: 0x4018000000000000u64, is_user_edited: false }),
        default_prices().contains_key("mahogany"@) && default_prices()["mahogany"@] == (PriceEntry { id: "mahogany"@, name: "Mahogany"@, price_per_bf: 0x402c000000000000u64, is_user_edited: false }),
        default_prices().len() == 12,
        forall|k: Seq<char>| #[trigger] default_prices().contains_key(k) ==> !default_prices()[k].is_user_edited,
{
    lemma_stock_ids_distinct();
    let s = stock_entries();
    lemma_price_map_distinct(s);
    assert(default_prices().contains_key(s[0].id));
    assert(default_prices().contains_key(s[1].id));
    assert(default_prices().contains_key(s[2].id));
    assert(default_prices().contains_key(s[3].id));
    assert(default_prices().contains_key(s[4].id));
    assert(default_prices().contains_key(s[5].id));
    assert(default_prices().contains_key(s[6].id));
    assert(default_prices().contains_key(s[7].id));
    assert(default_prices().contains_key(s[8].id));
    assert(default_prices().contains_key(s[9].id));
    assert(default_prices().contains_key(s[10].id));
    assert(default_prices().contains_key(s[11].id));
    assert forall|k: Seq<char>| #[trigger] default_prices().contains_key(k) implies !default_prices()[k].is_user_edited by {
        let i = choose|i: int| 0 <= i < s.len() && s[i].id == k;
        assert(default_prices()[s[i].id] == s[i]);
    }
}

/// No two stock prices share an id.
proof fn lemma_stock_ids_distinct()
    ensures
        distinct_ids(stock_entries()),
{
    reveal_strlit("pine");
    reveal_strlit("douglas_fir");
    reveal_strlit("red_oak");
    reveal_strlit("white_oak");
    reveal_strlit("hard_maple");
    reveal_strlit("black_walnut");
    reveal_strlit("cherry");
    reveal_strlit("western_red_cedar");
    reveal_strlit("poplar");
    reveal_strlit("birch");
    reveal_strlit("ash");
    reveal_strlit("mahogany");
    let s = stock_entries();
    assert forall|i: int, j: int| 0 <= i < s.len() && 0 <= j < s.len() && i != j implies (#[trigger] s[i]).id != (#[trigger] s[j]).id by {
        assert(s[i].id == default_price_list()[i].0);
        assert(s[j].id == default_price_list()[j].0);
        if s[i].id == s[j].id {
            assert(s[i].id.len() == s[j].id.len());
            assert(s[i].id[0] == s[j].id[0]);
            assert(s[i].id[1] == s[j].id[1]);
        }
    }
}

} // verus!
