//! Catalog entries and the variant expander: one catalog entry yields one to
//! three concrete probe targets, depending on the selected check mode.

use vstd::prelude::*;

verus! {

/// Which file variants a run probes.
#[derive(Copy, Clone, PartialEq, Eq, Structural, Debug)]
pub enum CheckMode {
    Webp,
    Jpg,
    File,
    All,
}

/// One record of the asset catalog: an id and the file type of the asset.
#[derive(Debug)]
pub struct CatalogEntry {
    pub id: String,
    pub filetype: String,
}

/// The file type whose entries carry derived preview variants.
pub open spec fn pdf_type() -> Seq<char> {
    "pdf"@
}

/// The name of the plain file variant: `<id>.<filetype>`.
pub open spec fn file_target(id: Seq<char>, ft: Seq<char>) -> Seq<char> {
    id + "."@ + ft
}

/// The name of the jpg preview variant: `<id>.jpg`.
pub open spec fn jpg_target(id: Seq<char>) -> Seq<char> {
    id + ".jpg"@
}

/// The name of the webp preview variant: `<id>.webp`.
pub open spec fn webp_target(id: Seq<char>) -> Seq<char> {
    id + ".webp"@
}

/// The views of a vector of names.
pub open spec fn names_of(ts: Seq<String>) -> Seq<Seq<char>> {
    Seq::new(ts.len(), |i: int| ts[i]@)
}

/// The probe targets one catalog entry implies under a check mode.
///
/// Preview modes produce nothing for non-pdf entries; `All` produces the file
/// variant always, plus both previews for pdf entries.
pub open spec fn spec_expand(id: Seq<char>, ft: Seq<char>, mode: CheckMode) -> Seq<Seq<char>> {
    match mode {
        CheckMode::File => seq![file_target(id, ft)],
        CheckMode::Jpg => if ft == pdf_type() {
            seq![jpg_target(id)]
        } else {
            Seq::empty()
        },
        CheckMode::Webp => if ft == pdf_type() {
            seq![webp_target(id)]
        } else {
            Seq::empty()
        },
        CheckMode::All => if ft == pdf_type() {
            seq![file_target(id, ft), jpg_target(id), webp_target(id)]
        } else {
            seq![file_target(id, ft)]
        },
    }
}

/// The probe targets of one entry value.
pub open spec fn entry_targets(e: CatalogEntry, mode: CheckMode) -> Seq<Seq<char>> {
    spec_expand(e.id@, e.filetype@, mode)
}

/// All targets of a catalog, in catalog order, entry by entry.
pub open spec fn spec_expand_all(es: Seq<CatalogEntry>, mode: CheckMode) -> Seq<Seq<char>>
    decreases es.len(),
{
    if es.len() == 0 {
        Seq::empty()
    } else {
        spec_expand_all(es.drop_last(), mode) + entry_targets(es.last(), mode)
    }
}

/// Under the preview-only modes, a non-pdf entry expands to nothing.
pub proof fn lemma_preview_empty_for_non_pdf(id: Seq<char>, ft: Seq<char>)
    requires
        ft != pdf_type(),
    ensures
        spec_expand(id, ft, CheckMode::Jpg).len() == 0,
        spec_expand(id, ft, CheckMode::Webp).len() == 0,
{
}

/// Under `All`, a pdf entry expands to exactly three targets: the file
/// variant and both preview variants.
pub proof fn lemma_all_mode_pdf_three_targets(id: Seq<char>, ft: Seq<char>)
    requires
        ft == pdf_type(),
    ensures
        spec_expand(id, ft, CheckMode::All) == seq![
            file_target(id, ft),
            jpg_target(id),
            webp_target(id),
        ],
        spec_expand(id, ft, CheckMode::All).len() == 3,
{
}

/// Does the entry's file type equal `pdf`?
fn filetype_is_pdf(ft: &String) -> (r: bool)
    ensures
        r == (ft@ == pdf_type()),
{
    let p = String::from_str("pdf");
    *ft == p
}

/// Expand one catalog entry into its probe targets under `mode`.
pub fn expand(entry: &CatalogEntry, mode: CheckMode) -> (targets: Vec<String>)
    ensures
        names_of(targets@) == entry_targets(*entry, mode),
{
    let mut targets: Vec<String> = Vec::new();
    let is_pdf = filetype_is_pdf(&entry.filetype);
    match mode {
        CheckMode::File => {
            targets.push(entry.id.clone().concat(".").concat(entry.filetype.as_str()));
        },
        CheckMode::Jpg => {
            if is_pdf {
                targets.push(entry.id.clone().concat(".jpg"));
            }
        },
        CheckMode::Webp => {
            if is_pdf {
                targets.push(entry.id.clone().concat(".webp"));
            }
        },
        CheckMode::All => {
            targets.push(entry.id.clone().concat(".").concat(entry.filetype.as_str()));
            if is_pdf {
                targets.push(entry.id.clone().concat(".jpg"));
                targets.push(entry.id.clone().concat(".webp"));
            }
        },
    }
    proof {
        assert(names_of(targets@) =~= entry_targets(*entry, mode));
    }
    targets
}

/// Expand a whole catalog into the run's target list, in catalog order.
pub fn expand_all(entries: &Vec<CatalogEntry>, mode: CheckMode) -> (targets: Vec<String>)
    ensures
        names_of(targets@) == spec_expand_all(entries@, mode),
{
    let mut targets: Vec<String> = Vec::new();
    let mut i: usize = 0;
    proof {
        assert(entries@.take(0) =~= Seq::<CatalogEntry>::empty());
        assert(names_of(targets@) =~= spec_expand_all(entries@.take(0), mode));
    }
    while i < entries.len()
        invariant
            0 <= i <= entries@.len(),
            names_of(targets@) == spec_expand_all(entries@.take(i as int), mode),
        decreases entries@.len() - i,
    {
        let entry: &CatalogEntry = &entries[i];
        let mut more = expand(entry, mode);
        let ghost before = targets@;
        let ghost added = more@;
        targets.append(&mut more);
        proof {
            let t = entries@.take(i + 1);
            assert(t.drop_last() =~= entries@.take(i as int));
            assert(t.last() == entries@[i as int]);
            assert(names_of(before + added) =~= names_of(before) + names_of(added));
            assert(names_of(targets@) =~= spec_expand_all(entries@.take(i + 1), mode));
        }
        i = i + 1;
    }
    proof {
        assert(entries@.take(entries@.len() as int) =~= entries@);
    }
    targets
}

} // verus!
