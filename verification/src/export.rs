//! What happens to the library after a book group was exported to a new
//! file: the decisions of the post-export step, taken from the export
//! setting and the group's first book.

use vstd::prelude::*;

use crate::workspace::same_text;

verus! {

/// The parts of an export setting the post-export step reads.
#[derive(Clone, Copy, Debug, PartialEq, Eq, Structural)]
pub struct ExportFlags {
    /// The export replaces the source file.
    pub replace_source: bool,
    /// The export embeds the book's info file.
    pub embed_comic_info: bool,
    /// The export embeds the book's library data.
    pub embed_comic_book: bool,
    /// The page images were processed with the book's own adjustment.
    pub processing_from_comic: bool,
    /// The originals are deleted after the export.
    pub delete_original: bool,
    /// The output joins the library.
    pub add_to_library: bool,
}

/// What the post-export step reads of the group's first book.
#[derive(Clone, Copy, Debug, PartialEq, Eq, Structural)]
pub struct ExportedBook {
    /// The book has a file.
    pub local: bool,
    /// Its file is the export's output file.
    pub is_output: bool,
    /// Its info file has unsaved changes.
    pub info_dirty: bool,
    /// Its library data has unsaved changes.
    pub book_dirty: bool,
}

/// The post-export decisions.
#[derive(Clone, Copy, Debug, PartialEq, Eq, Structural)]
pub struct ExportPlan {
    /// The first book now points at the output file, with the exported info.
    pub replace_in_place: bool,
    /// The group's other files go to the trash and leave the library.
    pub trash_sources: bool,
    /// A new book for the output file joins the library.
    pub add_new_book: bool,
    /// The first book's color adjustment is reset (it is baked into the
    /// output).
    pub reset_color: bool,
    /// The info file's unsaved changes are now in the output.
    pub clear_info_dirty: bool,
    /// The library data's unsaved changes are now in the output.
    pub clear_book_dirty: bool,
    /// The first book already is the output file and only drops the dirty
    /// flags the export saved.
    pub refresh_kept_book: bool,
}

/// The post-export decisions: a local book exported to replace its source
/// takes the output in place and the group's other files are trashed;
/// otherwise the originals are trashed only when asked (and the book is
/// local), a new book joins for the output when it is added to the library
/// or replaces the source, and a book that already is the output only
/// drops the dirty flags the export saved.
pub open spec fn spec_export_plan(flags: ExportFlags, first: ExportedBook) -> ExportPlan {
    let in_place = first.local && flags.replace_source;
    ExportPlan {
        replace_in_place: in_place,
        trash_sources: in_place || (flags.delete_original && first.local),
        add_new_book: !in_place && (flags.add_to_library || flags.replace_source),
        reset_color: in_place && flags.processing_from_comic,
        clear_info_dirty: flags.embed_comic_info && first.info_dirty,
        clear_book_dirty: flags.embed_comic_book && first.book_dirty,
        refresh_kept_book: !in_place && first.is_output,
    }
}

/// What the post-export plan never mixes: a book replaced in place is not
/// added again and is not refreshed as a kept book, and its group's other
/// files go to the trash; the color adjustment is reset only on a book
/// replaced in place; a book without a file has nothing to replace or
/// trash; a dirty flag is cleared only when the export embedded that data.
pub proof fn law_export_plan_is_consistent(flags: ExportFlags, first: ExportedBook)
    ensures
        ({
            let plan = spec_export_plan(flags, first);
            &&& plan.reset_color ==> plan.replace_in_place
            &&& plan.replace_in_place ==> plan.trash_sources && !plan.add_new_book && !plan.refresh_kept_book
            &&& plan.replace_in_place ==> first.local && flags.replace_source
            &&& !first.local ==> !plan.replace_in_place && !plan.trash_sources && !plan.reset_color
            &&& plan.trash_sources ==> first.local && (flags.replace_source || flags.delete_original)
            &&& plan.add_new_book ==> flags.add_to_library || flags.replace_source
            &&& plan.clear_info_dirty ==> flags.embed_comic_info && first.info_dirty
            &&& plan.clear_book_dirty ==> flags.embed_comic_book && first.book_dirty
            &&& !flags.processing_from_comic ==> !plan.reset_color
        }),
{
}

/// The post-export decisions (see [`spec_export_plan`]).
pub fn export_plan(flags: ExportFlags, first: ExportedBook) -> (r: ExportPlan)
    ensures
        r == spec_export_plan(flags, first),
{
    let in_place = first.local && flags.replace_source;
    ExportPlan {
        replace_in_place: in_place,
        trash_sources: in_place || (flags.delete_original && first.local),
        add_new_book: !in_place && (flags.add_to_library || flags.replace_source),
        reset_color: in_place && flags.processing_from_comic,
        clear_info_dirty: flags.embed_comic_info && first.info_dirty,
        clear_book_dirty: flags.embed_comic_book && first.book_dirty,
        refresh_kept_book: !in_place && first.is_output,
    }
}

/// The group's source files: the non-empty paths other than the output,
/// in order.
pub open spec fn spec_export_sources(paths: Seq<Seq<char>>, out: Seq<char>) -> Seq<Seq<char>>
    decreases paths.len(),
{
    if paths.len() == 0 {
        Seq::empty()
    } else {
        let rest = spec_export_sources(paths.drop_last(), out);
        let p = paths.last();
        if p.len() > 0 && p != out {
            rest.push(p)
        } else {
            rest
        }
    }
}

/// The group's source files (see [`spec_export_sources`]).
pub fn export_sources(paths: &Vec<String>, out: &str) -> (r: Vec<String>)
    ensures
        r@.map_values(|s: String| s@) == spec_export_sources(paths@.map_values(|s: String| s@), out@),
{
    let ghost views = paths@.map_values(|s: String| s@);
    let mut sources: Vec<String> = Vec::new();
    let mut i: usize = 0;
    while i < paths.len()
        invariant
            views == paths@.map_values(|s: String| s@),
            i <= paths@.len(),
            sources@.map_values(|s: String| s@) == spec_export_sources(views.take(i as int), out@),
        decreases paths@.len() - i,
    {
        let path = &paths[i];
        proof {
            assert(views.take(i + 1).drop_last() =~= views.take(i as int));
            assert(views.take(i + 1).last() == path@);
        }
        if path.as_str().unicode_len() > 0 && !same_text(path.as_str(), out) {
            let ghost before = sources@.map_values(|s: String| s@);
            sources.push(path.clone());
            assert(sources@.map_values(|s: String| s@) =~= before.push(path@));
        }
        i = i + 1;
    }
    assert(views.take(paths@.len() as int) =~= views);
    sources
}


/// The report line for a source that could not be trashed.
pub open spec fn spec_trash_message(file: Seq<char>) -> Seq<char> {
    "could not trash the original file: "@ + file
}

/// After trashing the sources (`trashed[i]` tells whether source `i` went
/// to the trash): the sources that leave the library, and a report line for
/// each one that stays, both in order.
pub open spec fn spec_trash_outcome(sources: Seq<Seq<char>>, trashed: Seq<bool>) -> (Seq<Seq<char>>, Seq<Seq<char>>)
    decreases sources.len(),
{
    if sources.len() == 0 || trashed.len() < sources.len() {
        (Seq::empty(), Seq::empty())
    } else {
        let n = sources.len() - 1;
        let (removed, errors) = spec_trash_outcome(sources.drop_last(), trashed.subrange(0, n));
        if trashed[n] {
            (removed.push(sources[n]), errors)
        } else {
            (removed, errors.push(spec_trash_message(sources[n])))
        }
    }
}

/// The sources that leave the library and the report lines of those that
/// could not be trashed (see [`spec_trash_outcome`]).
pub fn trash_outcome(sources: &Vec<String>, trashed: &Vec<bool>) -> (r: (Vec<String>, Vec<String>))
    requires
        trashed@.len() == sources@.len(),
    ensures
        (r.0@.map_values(|s: String| s@), r.1@.map_values(|s: String| s@)) == spec_trash_outcome(
            sources@.map_values(|s: String| s@),
            trashed@,
        ),
{
    let ghost views = sources@.map_values(|s: String| s@);
    let mut removed: Vec<String> = Vec::new();
    let mut errors: Vec<String> = Vec::new();
    let mut i: usize = 0;
    while i < sources.len()
        invariant
            views == sources@.map_values(|s: String| s@),
            trashed@.len() == sources@.len(),
            i <= sources@.len(),
            (removed@.map_values(|s: String| s@), errors@.map_values(|s: String| s@)) == spec_trash_outcome(
                views.take(i as int),
                trashed@.take(i as int),
            ),
        decreases sources@.len() - i,
    {
        proof {
            assert(views.take(i + 1).drop_last() =~= views.take(i as int));
            assert(trashed@.take(i + 1).subrange(0, i as int) =~= trashed@.take(i as int));
            assert(views.take(i + 1)[i as int] == sources@[i as int]@);
        }
        let ghost r0 = removed@.map_values(|s: String| s@);
        let ghost e0 = errors@.map_values(|s: String| s@);
        if trashed[i] {
            removed.push(sources[i].clone());
            assert(removed@.map_values(|s: String| s@) =~= r0.push(sources@[i as int]@));
        } else {
            let mut line = String::from_str("could not trash the original file: ");
            line.append(sources[i].as_str());
            errors.push(line);
            assert(errors@.map_values(|s: String| s@) =~= e0.push(spec_trash_message(sources@[i as int]@)));
        }
        i = i + 1;
    }
    assert(views.take(sources@.len() as int) =~= views);
    assert(trashed@.take(sources@.len() as int) =~= trashed@);
    (removed, errors)
}

/// Report lines joined with "; ".
pub open spec fn spec_join_errors(errors: Seq<Seq<char>>) -> Seq<char>
    decreases errors.len(),
{
    if errors.len() == 0 {
        Seq::empty()
    } else if errors.len() == 1 {
        errors[0]
    } else {
        spec_join_errors(errors.drop_last()) + "; "@ + errors.last()
    }
}

/// The post-export step's answer: success when nothing went wrong, else
/// the report lines joined with "; ".
pub fn export_result(errors: &Vec<String>) -> (r: Result<(), String>)
    ensures
        errors@.len() == 0 <==> r is Ok,
        r matches Err(m) ==> m@ == spec_join_errors(errors@.map_values(|s: String| s@)),
{
    if errors.len() == 0 {
        return Ok(());
    }
    let ghost views = errors@.map_values(|s: String| s@);
    let mut out = String::new();
    let mut i: usize = 0;
    while i < errors.len()
        invariant
            views == errors@.map_values(|s: String| s@),
            i <= errors@.len(),
            out@ == spec_join_errors(views.take(i as int)),
        decreases errors@.len() - i,
    {
        if i > 0 {
            out.append("; ");
        }
        out.append(errors[i].as_str());
        proof {
            assert(views.take(i + 1).drop_last() =~= views.take(i as int));
            if i == 0 {
                assert(views.take(1) =~= seq![views[0]]);
            }
        }
        i = i + 1;
    }
    assert(views.take(errors@.len() as int) =~= views);
    Err(out)
}

} // verus!
