use vstd::prelude::*;
use crate::commun_utils::fs_strategies::{FileReader, GIGA_FILE};
use crate::third_party::{compile_regex, regex_is_match, str_regex_compiles, str_regex_is_match};
use crate::virtual_fs::resolver::entries_view;

verus! {

/// The pattern that picks scripts and WebAssembly modules by their path.
pub open spec fn app_file_pattern() -> Seq<char> {
    r"(?i)\.(((c|m)?js)|wasm)"@
}

/// The pattern that picks images by their path.
pub open spec fn image_file_pattern() -> Seq<char> {
    r"(?i).(jpe?g|png)"@
}

/// The scan picks scripts and WebAssembly modules by a case-insensitive
/// pattern asking for a dot followed by `js`, `cjs`, `mjs` or `wasm`, and
/// images by a case-insensitive pattern asking for any character followed
/// by `jpg`, `jpeg` or `png`. Written out character by character: the
/// flag `(?i)`, then for scripts an escaped dot and the alternation of
/// `(c|m)?js` and `wasm`.
pub proof fn lemma_scan_target_patterns()
    ensures
        app_file_pattern() == seq!['(', '?', 'i', ')'] + seq!['\\', '.'] + seq!['(', '(', '(', 'c', '|', 'm', ')', '?', 'j', 's', ')', '|', 'w', 'a', 's', 'm', ')'],
        image_file_pattern() == seq!['(', '?', 'i', ')'] + seq!['.'] + seq!['(', 'j', 'p', 'e', '?', 'g', '|', 'p', 'n', 'g', ')'],
{
    reveal_strlit(r"(?i)\.(((c|m)?js)|wasm)");
    reveal_strlit(r"(?i).(jpe?g|png)");
    assert(app_file_pattern() =~= seq!['(', '?', 'i', ')'] + seq!['\\', '.'] + seq!['(', '(', '(', 'c', '|', 'm', ')', '?', 'j', 's', ')', '|', 'w', 'a', 's', 'm', ')']);
    assert(image_file_pattern() =~= seq!['(', '?', 'i', ')'] + seq!['.'] + seq!['(', 'j', 'p', 'e', '?', 'g', '|', 'p', 'n', 'g', ')']);
}

/// The files, in order, whose path the pattern matches.
pub open spec fn matching_entries(pattern: Seq<char>, es: Seq<(Seq<char>, u64)>) -> Seq<(Seq<char>, u64)>
    decreases es.len(),
{
    if es.len() == 0 {
        Seq::empty()
    } else {
        let rest = matching_entries(pattern, es.drop_last());
        if str_regex_is_match(pattern, es.last().0) {
            rest.push(es.last())
        } else {
            rest
        }
    }
}

/// The paths and lengths of a list of readers.
pub open spec fn readers_view(v: Seq<FileReader<String>>) -> Seq<(Seq<char>, u64)> {
    Seq::new(v.len(), |i: int| (v[i].inner()@, v[i].len()))
}

/// Whether a file is one the scan picks, as a script, a WebAssembly
/// module or an image.
pub open spec fn is_scan_target(path: Seq<char>) -> bool {
    str_regex_is_match(app_file_pattern(), path) || str_regex_is_match(image_file_pattern(), path)
}

/// Whether the scan picks a file too big to read among the first `n`.
pub open spec fn giant_target_before(es: Seq<(Seq<char>, u64)>, n: int) -> bool {
    exists|j: int| 0 <= j < n && is_scan_target((#[trigger] es[j]).0) && es[j].1 > GIGA_FILE
}

/// Why the scan targets could not be picked.
#[derive(Debug)]
pub enum ScanTargetError {
    /// A path pattern did not compile.
    Pattern(regex::Error),
    /// A picked file is over a gigabyte; its path.
    FileToBig(String),
}

/// Picks, among the files of the shared directory given with their
/// lengths, the images and the scripts or WebAssembly modules to scan,
/// each in listing order; a file can be both. Refused when a pattern does
/// not compile, or with the path of the first picked file over a
/// gigabyte.
pub fn ta0043_targets(files: &Vec<(String, u64)>) -> (r: Result<(Vec<FileReader<String>>, Vec<FileReader<String>>), ScanTargetError>)
    ensures
        !(str_regex_compiles(app_file_pattern()) && str_regex_compiles(image_file_pattern()))
            ==> r matches Err(ScanTargetError::Pattern(_)),
        str_regex_compiles(app_file_pattern()) && str_regex_compiles(image_file_pattern()) ==> {
            let es = entries_view(files@);
            &&& !giant_target_before(es, es.len() as int) ==> (r matches Ok((images, apps))
                && readers_view(images@) == matching_entries(image_file_pattern(), es)
                && readers_view(apps@) == matching_entries(app_file_pattern(), es))
            &&& giant_target_before(es, es.len() as int) ==> (r matches Err(ScanTargetError::FileToBig(p))
                && exists|i: int| 0 <= i < es.len() && (#[trigger] es[i]).0 == p@ && is_scan_target(es[i].0)
                    && es[i].1 > GIGA_FILE && !giant_target_before(es, i))
        },
{
    let app_re = match compile_regex(r"(?i)\.(((c|m)?js)|wasm)") {
        Ok(re) => re,
        Err(e) => return Err(ScanTargetError::Pattern(e)),
    };
    let image_re = match compile_regex(r"(?i).(jpe?g|png)") {
        Ok(re) => re,
        Err(e) => return Err(ScanTargetError::Pattern(e)),
    };
    proof {
        reveal_strlit(r"(?i)\.(((c|m)?js)|wasm)");
        reveal_strlit(r"(?i).(jpe?g|png)");
    }
    let mut image_files: Vec<FileReader<String>> = Vec::new();
    let mut application_files: Vec<FileReader<String>> = Vec::new();
    let ghost es = entries_view(files@);
    let mut i: usize = 0;
    while i < files.len()
        invariant
            i <= files@.len(),
            es == entries_view(files@),
            app_re.pattern() == app_file_pattern(),
            image_re.pattern() == image_file_pattern(),
            str_regex_compiles(app_file_pattern()) && str_regex_compiles(image_file_pattern()),
            !giant_target_before(es, i as int),
            readers_view(image_files@) == matching_entries(image_file_pattern(), es.take(i as int)),
            readers_view(application_files@) == matching_entries(app_file_pattern(), es.take(i as int)),
        decreases files@.len() - i,
    {
        let path = &files[i].0;
        let len = files[i].1;
        assert(es[i as int] == (path@, len));
        assert(es.take(i + 1).drop_last() =~= es.take(i as int));
        assert(es.take(i + 1).last() == (path@, len));
        let is_app = regex_is_match(&app_re, path.as_str());
        let is_image = regex_is_match(&image_re, path.as_str());
        if (is_app || is_image) && len > GIGA_FILE {
            assert(!giant_target_before(es, i as int));
            return Err(ScanTargetError::FileToBig(path.clone()));
        }
        if is_app {
            match FileReader::try_from(path.clone(), len) {
                Ok(reader) => {
                    let ghost before = application_files@;
                    application_files.push(reader);
                    assert(readers_view(application_files@) =~= readers_view(before).push((path@, len)));
                },
                Err(_) => {},
            }
        }
        if is_image {
            match FileReader::try_from(path.clone(), len) {
                Ok(reader) => {
                    let ghost before = image_files@;
                    image_files.push(reader);
                    assert(readers_view(image_files@) =~= readers_view(before).push((path@, len)));
                },
                Err(_) => {},
            }
        }
        assert(!giant_target_before(es, i + 1)) by {
            if giant_target_before(es, i + 1) {
                let j = choose|j: int| 0 <= j < i + 1 && is_scan_target((#[trigger] es[j]).0) && es[j].1 > GIGA_FILE;
                if j < i {
                    assert(giant_target_before(es, i as int));
                }
            }
        }
        i += 1;
    }
    assert(es.take(files@.len() as int) =~= es);
    Ok((image_files, application_files))
}

} // verus!
