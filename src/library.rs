use crate::conversion::{classify_family, hex_to_rgb, parse_hex, rgb_to_hsl};
use crate::model::{ColorLibrary, PantoneColor};
use vstd::prelude::*;

verus! {

/// A raw catalog entry as text: a name and a hex code.
pub type Entry = (Seq<char>, Seq<char>);

/// The entries whose hex code parses, in their order.
pub open spec fn valid_entries(e: Seq<Entry>) -> Seq<Entry>
    decreases e.len(),
{
    if e.len() == 0 {
        seq![]
    } else {
        let rest = valid_entries(e.drop_last());
        if parse_hex(e.last().1) is Some {
            rest.push(e.last())
        } else {
            rest
        }
    }
}

/// Raw entries held as strings, viewed as text.
pub open spec fn entry_views(e: Seq<(String, String)>) -> Seq<Entry> {
    e.map_values(|p: (String, String)| (p.0@, p.1@))
}

/// Names and hex codes paired by position, as far as both go.
pub open spec fn zip_views(names: Seq<String>, values: Seq<String>) -> Seq<Entry> {
    let n = if names.len() <= values.len() {
        names.len()
    } else {
        values.len()
    };
    Seq::new(n, |i: int| (names[i]@, values[i]@))
}

/// The colors of one library, each derived from its entry and tagged with
/// `library`.
pub open spec fn is_catalog(colors: Seq<PantoneColor>, library: ColorLibrary) -> bool {
    forall|k: int|
        0 <= k < colors.len() ==> (#[trigger] colors[k]).is_derived() && colors[k].library
            == library
}

/// The catalog built from raw entries: each entry whose hex code parses,
/// in order, converted and tagged; the others dropped.
pub open spec fn catalog_from(
    colors: Seq<PantoneColor>,
    entries: Seq<Entry>,
    library: ColorLibrary,
) -> bool {
    &&& is_catalog(colors, library)
    &&& colors.map_values(|c: PantoneColor| c.entry()) == valid_entries(entries)
}

/// Converts one entry, or gives none where its hex code does not parse.
fn convert_entry(name: &String, hex: &String, library: ColorLibrary) -> (r: Option<PantoneColor>)
    ensures
        r is Some <==> parse_hex(hex@) is Some,
        r matches Some(c) ==> c.is_derived() && c.library == library && c.entry() == (
        name@,
        hex@,
        ),
{
    let rgb = match hex_to_rgb(hex.as_str()) {
        Some(rgb) => rgb,
        None => return None,
    };
    let hsl = rgb_to_hsl(&rgb);
    let family = classify_family(&hsl);
    Some(PantoneColor { name: name.clone(), hex: hex.clone(), rgb, hsl, family, library })
}

proof fn lemma_catalog_push(colors: Seq<PantoneColor>, c: PantoneColor, library: ColorLibrary)
    requires
        is_catalog(colors, library),
        c.is_derived(),
        c.library == library,
    ensures
        is_catalog(colors.push(c), library),
{
    assert forall|k: int| 0 <= k < colors.len() + 1 implies #[trigger] colors.push(c)[k].is_derived()
        && colors.push(c)[k].library == library by {
        if k < colors.len() {
            assert(colors.push(c)[k] == colors[k]);
        }
    }
}

/// Appends the conversion of one entry, where it parses.
fn push_entry(
    out: &mut Vec<PantoneColor>,
    name: &String,
    hex: &String,
    library: ColorLibrary,
    Ghost(seen): Ghost<Seq<Entry>>,
)
    requires
        catalog_from(old(out)@, seen, library),
    ensures
        catalog_from(final(out)@, seen.push((name@, hex@)), library),
{
    let ghost e = seen.push((name@, hex@));
    let ghost before = out@;
    assert(e.drop_last() == seen);
    assert(e.last() == (name@, hex@));
    match convert_entry(name, hex, library) {
        Some(c) => {
            let ghost added = c;
            out.push(c);
            proof {
                assert(out@ == before.push(added));
                assert(valid_entries(e) == valid_entries(seen).push((name@, hex@)));
                assert(out@.map_values(|c: PantoneColor| c.entry()) =~= before.map_values(
                    |c: PantoneColor| c.entry(),
                ).push(added.entry()));
                lemma_catalog_push(before, added, library);
            }
        },
        None => {
            assert(valid_entries(e) == valid_entries(seen));
        },
    }
}

/// Builds the catalog of the library stored as two parallel lists, names and
/// hex codes, paired by position.
pub fn load_tcx_colors(names: &Vec<String>, values: &Vec<String>) -> (r: Vec<PantoneColor>)
    ensures
        catalog_from(r@, zip_views(names@, values@), ColorLibrary::FashionHomeTcx),
{
    let n = if names.len() <= values.len() {
        names.len()
    } else {
        values.len()
    };
    let ghost all = zip_views(names@, values@);
    let mut out: Vec<PantoneColor> = Vec::new();
    let mut i: usize = 0;
    assert(all.take(0) =~= Seq::<Entry>::empty());
    assert(out@.map_values(|c: PantoneColor| c.entry()) =~= Seq::<Entry>::empty());
    while i < n
        invariant
            n <= names@.len(),
            n <= values@.len(),
            all == zip_views(names@, values@),
            all.len() == n,
            i <= n,
            catalog_from(out@, all.take(i as int), ColorLibrary::FashionHomeTcx),
        decreases n - i,
    {
        assert(all.take(i as int).push(all[i as int]) == all.take(i + 1));
        push_entry(
            &mut out,
            &names[i],
            &values[i],
            ColorLibrary::FashionHomeTcx,
            Ghost(all.take(i as int)),
        );
        i = i + 1;
    }
    assert(all.take(n as int) == all);
    out
}

/// Builds the catalog of the library stored as a list of name and hex code
/// records.
pub fn load_solid_coated_colors(entries: &Vec<(String, String)>) -> (r: Vec<PantoneColor>)
    ensures
        catalog_from(r@, entry_views(entries@), ColorLibrary::SolidCoated),
{
    let ghost all = entry_views(entries@);
    let mut out: Vec<PantoneColor> = Vec::new();
    let mut i: usize = 0;
    assert(all.take(0) =~= Seq::<Entry>::empty());
    assert(out@.map_values(|c: PantoneColor| c.entry()) =~= Seq::<Entry>::empty());
    while i < entries.len()
        invariant
            all == entry_views(entries@),
            all.len() == entries@.len(),
            i <= entries@.len(),
            catalog_from(out@, all.take(i as int), ColorLibrary::SolidCoated),
        decreases entries@.len() - i,
    {
        assert(all.take(i as int).push(all[i as int]) == all.take(i + 1));
        push_entry(
            &mut out,
            &entries[i].0,
            &entries[i].1,
            ColorLibrary::SolidCoated,
            Ghost(all.take(i as int)),
        );
        i = i + 1;
    }
    assert(all.take(entries@.len() as int) == all);
    out
}

/// One malformed entry among valid ones is dropped and the rest keep their
/// order: the catalog is the entries with that one removed.
pub proof fn lemma_drops_one_malformed(e: Seq<Entry>, bad: int)
    requires
        0 <= bad < e.len(),
        parse_hex(e[bad].1) is None,
        forall|k: int| 0 <= k < e.len() && k != bad ==> parse_hex(#[trigger] e[k].1) is Some,
    ensures
        valid_entries(e) == e.remove(bad),
        valid_entries(e).len() == e.len() - 1,
    decreases e.len(),
{
    let last = e.len() - 1;
    if bad == last {
        lemma_all_valid_kept(e.drop_last());
        assert(e.remove(bad) =~= e.drop_last());
    } else {
        lemma_drops_one_malformed(e.drop_last(), bad);
        assert(e.remove(bad) =~= e.drop_last().remove(bad).push(e.last()));
    }
}

/// Entries that all parse are all kept, in order.
pub proof fn lemma_all_valid_kept(e: Seq<Entry>)
    requires
        forall|k: int| 0 <= k < e.len() ==> parse_hex(#[trigger] e[k].1) is Some,
    ensures
        valid_entries(e) == e,
    decreases e.len(),
{
    if e.len() > 0 {
        lemma_all_valid_kept(e.drop_last());
        assert(e.drop_last().push(e.last()) =~= e);
    }
}

/// The catalog of both libraries, built once from their raw entries and
/// read only afterwards.
pub struct ColorDatabase {
    tcx: Vec<PantoneColor>,
    solid_coated: Vec<PantoneColor>,
}

impl ColorDatabase {
    /// The colors of a library, in the order of its raw entries.
    pub closed spec fn colors(&self, library: ColorLibrary) -> Seq<PantoneColor> {
        match library {
            ColorLibrary::FashionHomeTcx => self.tcx@,
            ColorLibrary::SolidCoated => self.solid_coated@,
        }
    }

    #[verifier::type_invariant]
    spec fn tagged(&self) -> bool {
        &&& is_catalog(self.tcx@, ColorLibrary::FashionHomeTcx)
        &&& is_catalog(self.solid_coated@, ColorLibrary::SolidCoated)
    }

    /// Builds both catalogs: the parallel name and hex lists of the one,
    /// the records of the other.
    pub fn new(
        tcx_names: &Vec<String>,
        tcx_values: &Vec<String>,
        solid_coated: &Vec<(String, String)>,
    ) -> (r: Self)
        ensures
            catalog_from(
                r.colors(ColorLibrary::FashionHomeTcx),
                zip_views(tcx_names@, tcx_values@),
                ColorLibrary::FashionHomeTcx,
            ),
            catalog_from(
                r.colors(ColorLibrary::SolidCoated),
                entry_views(solid_coated@),
                ColorLibrary::SolidCoated,
            ),
    {
        let tcx = load_tcx_colors(tcx_names, tcx_values);
        let solid_coated = load_solid_coated_colors(solid_coated);
        ColorDatabase { tcx, solid_coated }
    }

    /// The colors of a library.
    pub fn get_library(&self, library: ColorLibrary) -> (r: &[PantoneColor])
        ensures
            r@ == self.colors(library),
            is_catalog(r@, library),
    {
        proof {
            use_type_invariant(self);
        }
        match library {
            ColorLibrary::FashionHomeTcx => self.tcx.as_slice(),
            ColorLibrary::SolidCoated => self.solid_coated.as_slice(),
        }
    }

    /// The number of colors of a library.
    pub fn library_count(&self, library: ColorLibrary) -> (r: usize)
        ensures
            r == self.colors(library).len(),
    {
        self.get_library(library).len()
    }
}

/// Color `i` comes before color `j` by hue, ties kept in their order.
pub open spec fn hue_before(colors: Seq<PantoneColor>, i: int, j: int) -> bool {
    colors[i].hsl.h < colors[j].hsl.h || (colors[i].hsl.h == colors[j].hsl.h && i < j)
}

/// `order` lists the positions of `colors` sorted by hue, ties in their
/// input order: each position once, since the order is strict.
pub open spec fn is_hue_order(colors: Seq<PantoneColor>, order: Seq<int>) -> bool {
    &&& order.len() == colors.len()
    &&& forall|k: int| 0 <= k < order.len() ==> 0 <= #[trigger] order[k] < colors.len()
    &&& forall|a: int, b: int|
        0 <= a < b < order.len() ==> hue_before(colors, #[trigger] order[a], #[trigger] order[b])
}

/// Two colors hold the same name, hex code and derived values.
pub open spec fn same_color(a: PantoneColor, b: PantoneColor) -> bool {
    &&& a.entry() == b.entry()
    &&& a.rgb == b.rgb
    &&& a.hsl == b.hsl
    &&& a.family == b.family
    &&& a.library == b.library
}

/// The positions of `colors` in a stable sort by hue.
pub fn hue_order(colors: &[PantoneColor]) -> (r: Vec<usize>)
    ensures
        is_hue_order(colors@, r@.map_values(|k: usize| k as int)),
{
    let mut order: Vec<usize> = Vec::new();
    let mut i: usize = 0;
    while i < colors.len()
        invariant
            i <= colors@.len(),
            order@.len() == i,
            forall|k: int| 0 <= k < order@.len() ==> #[trigger] order@[k] < i,
            forall|a: int, b: int|
                0 <= a < b < order@.len() ==> hue_before(
                    colors@,
                    #[trigger] order@[a] as int,
                    #[trigger] order@[b] as int,
                ),
        decreases colors@.len() - i,
    {
        let h = colors[i].hsl.h;
        let mut j: usize = 0;
        while j < order.len() && colors[order[j]].hsl.h <= h
            invariant
                i < colors@.len(),
                h == colors@[i as int].hsl.h,
                j <= order@.len(),
                forall|k: int| 0 <= k < order@.len() ==> #[trigger] order@[k] < i,
                forall|k: int| 0 <= k < j ==> colors@[#[trigger] order@[k] as int].hsl.h <= h,
            decreases order@.len() - j,
        {
            j = j + 1;
        }
        proof {
            if j < order@.len() {
                assert forall|k: int| j <= k < order@.len() implies h < colors@[
                    #[trigger] order@[k] as int
                ].hsl.h by {
                    if k > j {
                        assert(hue_before(colors@, order@[j as int] as int, order@[k] as int));
                    }
                }
            }
        }
        let ghost before = order@;
        order.insert(j, i);
        proof {
            assert forall|a: int, b: int| 0 <= a < b < order@.len() implies hue_before(
                colors@,
                #[trigger] order@[a] as int,
                #[trigger] order@[b] as int,
            ) by {
                if b < j {
                    assert(order@[a] == before[a] && order@[b] == before[b]);
                } else if b == j {
                    assert(order@[a] == before[a]);
                } else if a < j {
                    assert(order@[a] == before[a] && order@[b] == before[b - 1]);
                } else if a == j {
                    assert(order@[b] == before[b - 1]);
                } else {
                    assert(order@[a] == before[a - 1] && order@[b] == before[b - 1]);
                }
            }
            assert forall|k: int| 0 <= k < order@.len() implies #[trigger] order@[k] < i + 1 by {
                if k < j {
                    assert(order@[k] == before[k]);
                } else if k > j {
                    assert(order@[k] == before[k - 1]);
                }
            }
        }
        i = i + 1;
    }
    let ghost o = order@.map_values(|k: usize| k as int);
    assert forall|a: int, b: int| 0 <= a < b < o.len() implies hue_before(
        colors@,
        #[trigger] o[a],
        #[trigger] o[b],
    ) by {
        assert(hue_before(colors@, order@[a] as int, order@[b] as int));
    }
    order
}

/// A copy of a color.
fn copy_color(c: &PantoneColor) -> (r: PantoneColor)
    ensures
        same_color(r, *c),
{
    PantoneColor {
        name: c.name.clone(),
        hex: c.hex.clone(),
        rgb: c.rgb,
        hsl: c.hsl,
        family: c.family,
        library: c.library,
    }
}

/// The colors sorted by hue, colors of equal hue in their input order.
pub fn sort_by_hue(colors: &[PantoneColor]) -> (r: Vec<PantoneColor>)
    ensures
        r@.len() == colors@.len(),
        exists|order: Seq<int>|
            is_hue_order(colors@, order) && forall|k: int|
                0 <= k < r@.len() ==> same_color(#[trigger] r@[k], colors@[order[k]]),
{
    let order = hue_order(colors);
    let ghost o = order@.map_values(|k: usize| k as int);
    let mut out: Vec<PantoneColor> = Vec::new();
    let mut i: usize = 0;
    while i < order.len()
        invariant
            is_hue_order(colors@, o),
            o == order@.map_values(|k: usize| k as int),
            i <= order@.len(),
            out@.len() == i,
            forall|k: int| 0 <= k < i ==> same_color(#[trigger] out@[k], colors@[o[k]]),
        decreases order@.len() - i,
    {
        assert(o[i as int] == order@[i as int] as int);
        out.push(copy_color(&colors[order[i]]));
        i = i + 1;
    }
    out
}

} // verus!
