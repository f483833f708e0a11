//! Discovered projects and the scan that finds them: one project per
//! manifest-matching file below the repository root, at any nesting depth.

use vstd::prelude::*;

use crate::fs_model::FsSnapshot;
use crate::fs_model::clone_path;
use crate::fs_model::is_path_prefix;
use crate::fs_model::path_starts_with;
use crate::languages::Component;
use crate::languages::Dependencies;
use crate::languages::Languages;
use crate::languages::names_of;
use crate::languages::registry;

verus! {

/// One discovered project: the directory its manifest was found in, and the
/// language that matched the manifest.
#[derive(Debug, Clone)]
pub struct Project {
    /// The language whose manifest file name matched.
    pub language: Languages,
    /// The directory directly containing the matched manifest.
    pub root: Vec<String>,
}

impl Project {
    /// Pairs a project root with the language found there.
    pub fn new(root: Vec<String>, language: Languages) -> (r: Project)
        ensures
            r.root == root,
            r.language == language,
    {
        Project { root, language }
    }

    /// Extracts the project's internal dependencies from the text of its
    /// manifest, under the project's own language rule.
    pub fn get_internal_dependencies(&self, manifest_text: &str) -> (r: Vec<Component>)
        ensures
            names_of(r@) == self.language.spec_internal_dependencies(manifest_text@),
    {
        match &self.language {
            Languages::Go(lang) => lang.get_internal_dependencies(manifest_text),
            Languages::Rust(lang) => lang.get_internal_dependencies(manifest_text),
        }
    }
}

/// The first registered language whose manifest file name is `name`.
pub open spec fn match_lang_in(langs: Seq<Languages>, name: Seq<char>) -> Option<Languages>
    decreases langs.len(),
{
    if langs.len() == 0 {
        None
    } else if langs[0].spec_project_file_name() == name {
        Some(langs[0])
    } else {
        match_lang_in(langs.drop_first(), name)
    }
}

/// The registered language recognized by the manifest file name `name`.
pub open spec fn match_lang(name: Seq<char>) -> Option<Languages> {
    match_lang_in(registry(), name)
}

/// What a scan rooted at `root` makes of the files `files`: for every file
/// strictly below `root` whose name is a registered manifest name, in order,
/// the file's parent directory paired with the matching language.
pub open spec fn spec_scan(files: Seq<Seq<Seq<char>>>, root: Seq<Seq<char>>) -> Seq<
    (Seq<Seq<char>>, Languages),
>
    decreases files.len(),
{
    if files.len() == 0 {
        Seq::<(Seq<Seq<char>>, Languages)>::empty()
    } else {
        let f = files[0];
        let rest = spec_scan(files.drop_first(), root);
        if f.len() > root.len() && is_path_prefix(root, f) {
            match match_lang(f.last()) {
                Some(lang) => seq![(f.drop_last(), lang)] + rest,
                None => rest,
            }
        } else {
            rest
        }
    }
}

/// The root directory and language of each project in a scan result.
pub open spec fn pairs_of(ps: Seq<Project>) -> Seq<(Seq<Seq<char>>, Languages)> {
    ps.map_values(|p: Project| (p.root.deep_view(), p.language))
}

/// A file the scan records a project for: strictly below the scan root,
/// with a registered manifest name.
pub open spec fn is_manifest_match(f: Seq<Seq<char>>, root: Seq<Seq<char>>) -> bool {
    f.len() > root.len() && is_path_prefix(root, f) && match_lang(f.last()) is Some
}

/// The project a matching file gives rise to: the file's parent directory
/// and the language whose manifest name matched.
pub open spec fn project_of(f: Seq<Seq<char>>) -> (Seq<Seq<char>>, Languages) {
    (f.drop_last(), match_lang(f.last())->0)
}

/// Whether one file is a manifest match for the given scan root.
pub open spec fn manifest_match_pred(root: Seq<Seq<char>>) -> spec_fn(Seq<Seq<char>>) -> bool {
    |f: Seq<Seq<char>>| is_manifest_match(f, root)
}

/// The projection from a matching file to its project.
pub open spec fn project_of_fn() -> spec_fn(Seq<Seq<char>>) -> (Seq<Seq<char>>, Languages) {
    |f: Seq<Seq<char>>| project_of(f)
}

proof fn lemma_spec_scan_push(files: Seq<Seq<Seq<char>>>, f: Seq<Seq<char>>, root: Seq<Seq<char>>)
    ensures
        spec_scan(files.push(f), root) == spec_scan(files, root) + (if is_manifest_match(f, root) {
            seq![project_of(f)]
        } else {
            Seq::<(Seq<Seq<char>>, Languages)>::empty()
        }),
    decreases files.len(),
{
    let tail = if is_manifest_match(f, root) {
        seq![project_of(f)]
    } else {
        Seq::<(Seq<Seq<char>>, Languages)>::empty()
    };
    if files.len() == 0 {
        assert(files.push(f)[0] == f);
        assert(files.push(f).drop_first() =~= Seq::<Seq<Seq<char>>>::empty());
        assert(files =~= Seq::<Seq<Seq<char>>>::empty());
        assert(spec_scan(Seq::<Seq<Seq<char>>>::empty(), root) =~= Seq::<
            (Seq<Seq<char>>, Languages),
        >::empty());
        assert(spec_scan(files, root) + tail =~= tail);
        if is_manifest_match(f, root) {
            assert(seq![project_of(f)] + Seq::<(Seq<Seq<char>>, Languages)>::empty()
                =~= seq![project_of(f)]);
        }
    } else {
        assert(files.push(f)[0] == files[0]);
        assert(files.push(f).drop_first() =~= files.drop_first().push(f));
        lemma_spec_scan_push(files.drop_first(), f, root);
        let rest = spec_scan(files.drop_first(), root);
        let h = files[0];
        if h.len() > root.len() && is_path_prefix(root, h) && match_lang(h.last()) is Some {
            let p0 = (h.drop_last(), match_lang(h.last())->0);
            assert(seq![p0] + (rest + tail) =~= (seq![p0] + rest) + tail);
        }
    }
}

/// The scan records exactly one project per manifest-matching file, in file
/// order: each matching file contributes its parent directory and the
/// language that matched, whatever its nesting depth, and no other file
/// contributes anything.
pub proof fn lemma_scan_one_project_per_match(files: Seq<Seq<Seq<char>>>, root: Seq<Seq<char>>)
    ensures
        spec_scan(files, root) == files.filter(manifest_match_pred(root)).map_values(
            project_of_fn(),
        ),
    decreases files.len(),
{
    reveal(Seq::filter);
    let pred = manifest_match_pred(root);
    if files.len() == 0 {
        assert(files.filter(pred).map_values(project_of_fn()) =~= Seq::<
            (Seq<Seq<char>>, Languages),
        >::empty());
        assert(spec_scan(files, root) =~= Seq::<(Seq<Seq<char>>, Languages)>::empty());
    } else {
        let d = files.drop_last();
        let l = files.last();
        lemma_scan_one_project_per_match(d, root);
        assert(d.push(l) =~= files);
        lemma_spec_scan_push(d, l, root);
        if pred(l) {
            assert(files.filter(pred) == d.filter(pred).push(l));
            assert(d.filter(pred).push(l).map_values(project_of_fn()) =~= d.filter(
                pred,
            ).map_values(project_of_fn()).push(project_of(l)));
            assert(spec_scan(d, root) + seq![project_of(l)] =~= spec_scan(d, root).push(
                project_of(l),
            ));
        } else {
            assert(files.filter(pred) == d.filter(pred));
            assert(spec_scan(d, root) + Seq::<(Seq<Seq<char>>, Languages)>::empty() =~= spec_scan(
                d,
                root,
            ));
        }
    }
}

/// The registered language whose manifest file name equals `name`, trying
/// the registry in order.
pub fn language_for_file_name(name: &String) -> (r: Option<Languages>)
    ensures
        r == match_lang(name@),
{
    let langs = Languages::all();
    let mut j: usize = 0;
    proof {
        assert(registry().subrange(0, registry().len() as int) =~= registry());
    }
    while j < langs.len()
        invariant
            langs@ == registry(),
            j <= langs@.len(),
            match_lang(name@) == match_lang_in(
                registry().subrange(j as int, registry().len() as int),
                name@,
            ),
        decreases langs@.len() - j,
    {
        let ghost suffix = registry().subrange(j as int, registry().len() as int);
        let fname = langs[j].get_project_file_name();
        proof {
            assert(suffix[0] == registry()[j as int]);
        }
        if name.eq(&fname) {
            return Some(langs[j]);
        }
        proof {
            assert(suffix.drop_first() =~= registry().subrange(j + 1, registry().len() as int));
        }
        j += 1;
    }
    proof {
        assert(registry().subrange(registry().len() as int, registry().len() as int)
            =~= Seq::<Languages>::empty());
    }
    None
}

/// Walks the snapshot and records one project per manifest-matching file
/// strictly below `root`, in the order the snapshot lists its files.
pub fn scan(fs: &FsSnapshot, root: &Vec<String>) -> (r: Vec<Project>)
    ensures
        pairs_of(r@) == spec_scan(fs.files.deep_view(), root.deep_view()),
{
    let ghost fv = fs.files.deep_view();
    let ghost rv = root.deep_view();
    let mut out: Vec<Project> = Vec::new();
    let mut i: usize = 0;
    proof {
        assert(fv.subrange(0, fv.len() as int) =~= fv);
        assert(pairs_of(out@) =~= Seq::<(Seq<Seq<char>>, Languages)>::empty());
        assert(pairs_of(out@) + spec_scan(fv, rv) =~= spec_scan(fv, rv));
    }
    while i < fs.files.len()
        invariant
            fv == fs.files.deep_view(),
            rv == root.deep_view(),
            i <= fv.len(),
            spec_scan(fv, rv) =~= pairs_of(out@) + spec_scan(
                fv.subrange(i as int, fv.len() as int),
                rv,
            ),
        decreases fv.len() - i,
    {
        let ghost suffix = fv.subrange(i as int, fv.len() as int);
        let ghost f = fv[i as int];
        proof {
            assert(suffix[0] == f);
            assert(suffix.drop_first() =~= fv.subrange(i + 1, fv.len() as int));
        }
        let file = &fs.files[i];
        if file.len() > root.len() && path_starts_with(file, root) {
            let name = &file[file.len() - 1];
            proof {
                assert(name@ == f.last());
            }
            match language_for_file_name(name) {
                Some(lang) => {
                    let mut parent = clone_path(file);
                    parent.pop();
                    proof {
                        assert(parent.deep_view() =~= f.drop_last());
                    }
                    let p = Project::new(parent, lang);
                    let ghost old_pairs = pairs_of(out@);
                    out.push(p);
                    proof {
                        assert(pairs_of(out@) =~= old_pairs.push((f.drop_last(), lang)));
                        assert(old_pairs.push((f.drop_last(), lang)) =~= old_pairs + seq![
                            (f.drop_last(), lang),
                        ]);
                        assert((old_pairs + seq![(f.drop_last(), lang)]) + spec_scan(
                            suffix.drop_first(),
                            rv,
                        ) =~= old_pairs + (seq![(f.drop_last(), lang)] + spec_scan(
                            suffix.drop_first(),
                            rv,
                        )));
                    }
                },
                None => {
                },
            }
        } else {
        }
        i += 1;
    }
    proof {
        assert(fv.subrange(fv.len() as int, fv.len() as int) =~= Seq::<Seq<Seq<char>>>::empty());
        assert(pairs_of(out@) + spec_scan(Seq::<Seq<Seq<char>>>::empty(), rv) =~= pairs_of(out@));
    }
    out
}

} // verus!
