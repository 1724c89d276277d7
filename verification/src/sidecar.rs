//! What the app decides about its bundled sidecars (BabelDOC and markitdown): which candidate
//! executable is usable, which lines of their output are worth showing, and how an exit is
//! reported.
use vstd::prelude::*;

use crate::order::texts;
use crate::text::{
    chars_of, has_prefix, has_suffix, i32_to_string, lower_chars, lower_seq, opt_text,
    signed_decimal, trim, trim_str, vec_ends_with, vec_starts_with,
};
use crate::translate::runner::{decode_process_output, decode_spec};

verus! {

/// A file name that PyInstaller's Python runtime DLL carries (`python*.dll`, any case).
pub open spec fn python_runtime_name(name: Seq<char>) -> bool {
    has_prefix(lower_seq(name), "python"@) && has_suffix(lower_seq(name), ".dll"@)
}

/// Whether `name` is the file name of a Python runtime DLL.
pub fn is_python_runtime(name: &str) -> (r: bool)
    ensures
        r == python_runtime_name(name@),
{
    let lower = lower_chars(name);
    vec_starts_with(&lower, &chars_of("python")) && vec_ends_with(&lower, &chars_of(".dll"))
}

/// Some name among `names` is a Python runtime DLL.
pub open spec fn has_python_runtime(names: Seq<String>) -> bool {
    exists|i: int| 0 <= i < names.len() && python_runtime_name(#[trigger] names[i]@)
}

/// A one-folder sidecar is usable when its executable is a file and the `_internal`
/// directory beside it (whose entry names `internal` lists, `None` when it is missing)
/// holds a Python runtime DLL.
pub fn is_usable_sidecar(is_file: bool, internal: Option<&Vec<String>>) -> (r: bool)
    ensures
        r == (is_file && match internal {
            Some(names) => has_python_runtime(names@),
            None => false,
        }),
{
    if !is_file {
        return false;
    }
    match internal {
        None => false,
        Some(names) => {
            let mut i: usize = 0;
            while i < names.len()
                invariant
                    i <= names@.len(),
                    is_file,
                    internal == Some(names),
                    forall|j: int| 0 <= j < i ==> !python_runtime_name(#[trigger] names@[j]@),
                decreases names.len() - i,
            {
                let hit = is_python_runtime(names[i].as_str());
                if hit {
                    proof {
                        assert(names[i as int]@ == names@[i as int]@);
                        assert(python_runtime_name(names@[i as int]@));
                        assert(has_python_runtime(names@));
                    }
                    return true;
                }
                i = i + 1;
            }
            false
        },
    }
}

/// A one-folder sidecar is usable exactly when its executable is a file and its `_internal`
/// directory lists a name that, in ASCII lower case, starts with `python` and ends with
/// `.dll`.
pub proof fn law_usable_sidecar_has_python_runtime(is_file: bool, internal: Option<Seq<String>>)
    ensures
        (is_file && match internal {
            Some(names) => has_python_runtime(names),
            None => false,
        }) <==> (is_file && internal is Some && exists|i: int|
            0 <= i < internal->0.len() && has_prefix(
                lower_seq(#[trigger] internal->0[i]@),
                "python"@,
            ) && has_suffix(lower_seq(internal->0[i]@), ".dll"@)),
{
}

/// The first candidate path that is usable.
pub open spec fn first_usable(c: Seq<(Seq<char>, bool)>) -> Option<Seq<char>>
    decreases c.len(),
{
    if c.len() == 0 {
        None
    } else if c[0].1 {
        Some(c[0].0)
    } else {
        first_usable(c.drop_first())
    }
}

/// The sidecar found in a directory is the first candidate, in order of preference, that is
/// usable: every candidate before it is not; none is found only when no candidate is usable.
pub proof fn law_first_usable_candidate(c: Seq<(Seq<char>, bool)>)
    ensures
        first_usable(c) matches Some(p) ==> exists|i: int|
            0 <= i < c.len() && #[trigger] c[i] == (p, true) && forall|j: int|
                0 <= j < i ==> !(#[trigger] c[j]).1,
        first_usable(c) is None ==> forall|j: int| 0 <= j < c.len() ==> !(#[trigger] c[j]).1,
    decreases c.len(),
{
    if c.len() > 0 {
        if c[0].1 {
            assert(c[0] == (c[0].0, true));
        } else {
            let d = c.drop_first();
            law_first_usable_candidate(d);
            assert forall|j: int| 1 <= j < c.len() implies #[trigger] c[j] == d[j - 1] by {}
            match first_usable(d) {
                Some(p) => {
                    let i = choose|i: int|
                        0 <= i < d.len() && #[trigger] d[i] == (p, true) && forall|j: int|
                            0 <= j < i ==> !(#[trigger] d[j]).1;
                    assert(c[i + 1] == (p, true));
                    assert forall|j: int| 0 <= j < i + 1 implies !(#[trigger] c[j]).1 by {
                        if j > 0 {
                            assert(c[j] == d[j - 1]);
                        }
                    }
                },
                None => {
                    assert forall|j: int| 0 <= j < c.len() implies !(#[trigger] c[j]).1 by {
                        if j > 0 {
                            assert(c[j] == d[j - 1]);
                        }
                    }
                },
            }
        }
    }
}

/// The candidates as plain values.
pub open spec fn candidates_view(c: Seq<(String, bool)>) -> Seq<(Seq<char>, bool)> {
    c.map_values(|p: (String, bool)| (p.0@, p.1))
}

/// Among the candidate executables of a directory, in order of preference, each with
/// whether it is usable, the first usable one.
pub fn find_sidecar_in_dir(candidates: &Vec<(String, bool)>) -> (r: Option<String>)
    ensures
        opt_text(r) == first_usable(candidates_view(candidates@)),
{
    let ghost all = candidates_view(candidates@);
    let mut i: usize = 0;
    assert(all.skip(0) =~= all);
    while i < candidates.len()
        invariant
            i <= candidates@.len(),
            all == candidates_view(candidates@),
            first_usable(all) == first_usable(all.skip(i as int)),
        decreases candidates.len() - i,
    {
        proof {
            assert(all.skip(i as int).drop_first() =~= all.skip(i + 1));
        }
        if candidates[i].1 {
            return Some(candidates[i].0.clone());
        }
        i = i + 1;
    }
    None
}

/// The directories searched for a bundled one-folder sidecar, in order, each as path
/// components to join: the sidecar's `folder` in the app's resource directory, the directory
/// of the running executable, and its `sidecar` subdirectory (each only when known).
pub open spec fn search_dirs(resource_dir: Option<Seq<char>>, exe_dir: Option<Seq<char>>, folder: Seq<char>) -> Seq<
    Seq<Seq<char>>,
> {
    (match resource_dir {
        Some(r) => seq![seq![r, folder]],
        None => seq![],
    }) + match exe_dir {
        Some(e) => seq![seq![e], seq![e, "sidecar"@]],
        None => seq![],
    }
}

/// Path components as plain values.
pub open spec fn parts_view(v: Seq<Vec<String>>) -> Seq<Seq<Seq<char>>> {
    v.map_values(|p: Vec<String>| texts(p@))
}

/// The directories to search for a sidecar, in order.
pub fn sidecar_search_dirs(resource_dir: Option<String>, exe_dir: Option<String>, folder: &str) -> (r: Vec<
    Vec<String>,
>)
    ensures
        parts_view(r@) == search_dirs(opt_text(resource_dir), opt_text(exe_dir), folder@),
{
    let mut out: Vec<Vec<String>> = Vec::new();
    match resource_dir {
        Some(r) => {
            let mut d: Vec<String> = Vec::new();
            d.push(r);
            d.push(folder.to_string());
            assert(texts(d@) =~= seq![d@[0]@, folder@]);
            out.push(d);
        },
        None => {},
    }
    match exe_dir {
        Some(e) => {
            let mut d1: Vec<String> = Vec::new();
            let ghost ev = e@;
            d1.push(e.clone());
            assert(texts(d1@) =~= seq![ev]);
            let ghost before = out@;
            out.push(d1);
            let mut d2: Vec<String> = Vec::new();
            d2.push(e);
            d2.push("sidecar".to_string());
            proof {
                reveal_strlit("sidecar");
            }
            assert(texts(d2@) =~= seq![ev, "sidecar"@]);
            out.push(d2);
            assert(parts_view(out@) =~= parts_view(before) + seq![seq![ev], seq![ev, "sidecar"@]]);
        },
        None => {},
    }
    assert(parts_view(out@) =~= search_dirs(opt_text(resource_dir), opt_text(exe_dir), folder@));
    out
}

/// The development build locations of a sidecar, tried last: for each executable name,
/// `{manifest_dir}/../sidecar/dist/{folder}/{name}`, as path components.
pub open spec fn dev_paths(manifest_dir: Seq<char>, folder: Seq<char>, names: Seq<Seq<char>>) -> Seq<
    Seq<Seq<char>>,
> {
    names.map_values(
        |n: Seq<char>| seq![manifest_dir, ".."@, "sidecar"@, "dist"@, folder, n],
    )
}

/// The development build locations of a sidecar.
pub fn dev_sidecar_paths(manifest_dir: &str, folder: &str, names: &Vec<String>) -> (r: Vec<Vec<String>>)
    ensures
        parts_view(r@) == dev_paths(manifest_dir@, folder@, texts(names@)),
{
    let mut out: Vec<Vec<String>> = Vec::new();
    let mut i: usize = 0;
    while i < names.len()
        invariant
            i <= names@.len(),
            parts_view(out@) == dev_paths(manifest_dir@, folder@, texts(names@)).take(i as int),
        decreases names.len() - i,
    {
        let mut d: Vec<String> = Vec::new();
        d.push(manifest_dir.to_string());
        d.push("..".to_string());
        d.push("sidecar".to_string());
        d.push("dist".to_string());
        d.push(folder.to_string());
        d.push(names[i].clone());
        let ghost before = out@;
        out.push(d);
        proof {
            reveal_strlit("..");
            reveal_strlit("sidecar");
            reveal_strlit("dist");
            assert(texts(d@) =~= seq![manifest_dir@, ".."@, "sidecar"@, "dist"@, folder@, names@[i as int]@]);
            assert(parts_view(out@) =~= parts_view(before).push(texts(d@)));
        }
        i = i + 1;
        assert(parts_view(out@) =~= dev_paths(manifest_dir@, folder@, texts(names@)).take(i as int));
    }
    assert(dev_paths(manifest_dir@, folder@, texts(names@)).take(names@.len() as int) =~= dev_paths(
        manifest_dir@,
        folder@,
        texts(names@),
    ));
    out
}

/// The trimmed text of a chunk of sidecar output, unless it is blank.
pub open spec fn output_line(bytes: Seq<u8>) -> Option<Seq<char>> {
    if trim(decode_spec(bytes)).len() == 0 {
        None
    } else {
        Some(trim(decode_spec(bytes)))
    }
}

/// Decode one chunk of sidecar output, trim it, and drop it when blank.
pub fn decoded_line(bytes: &[u8]) -> (r: Option<String>)
    ensures
        opt_text(r) == output_line(bytes@),
{
    let text = decode_process_output(bytes);
    let line = trim_str(text.as_str());
    if line.as_str().is_empty() {
        None
    } else {
        Some(line)
    }
}

/// How a sidecar process ended: it exited (successfully or not, with its exit code when
/// it has one), or waiting for it failed.
#[derive(Debug, Clone, Copy, PartialEq, Eq, Structural)]
pub enum ExitOutcome {
    Exited { success: bool, code: Option<i32> },
    WaitFailed,
}

/// The process exited successfully.
pub open spec fn exit_ok(e: ExitOutcome) -> bool {
    e matches ExitOutcome::Exited { success: true, .. }
}

/// Whether the process exited successfully.
pub fn exited_ok(e: &ExitOutcome) -> (r: bool)
    ensures
        r == exit_ok(*e),
{
    match e {
        ExitOutcome::Exited { success, .. } => *success,
        ExitOutcome::WaitFailed => false,
    }
}

/// The message for a sidecar named `tool` that did not succeed: its exit code (`-1`
/// without one), or that it could not be run to the end.
pub open spec fn failure_message(tool: Seq<char>, e: ExitOutcome) -> Seq<char> {
    match e {
        ExitOutcome::Exited { code, .. } => tool + " 退出码 "@ + signed_decimal(
            match code {
                Some(c) => c as int,
                None => -1,
            },
        ),
        ExitOutcome::WaitFailed => tool + " 执行失败"@,
    }
}

/// The message for a sidecar that did not succeed.
pub fn failure_text(tool: &str, e: &ExitOutcome) -> (r: String)
    ensures
        r@ == failure_message(tool@, *e),
{
    let mut m = tool.to_string();
    match e {
        ExitOutcome::Exited { code, .. } => {
            m.append(" 退出码 ");
            let c: i32 = match code {
                Some(c) => *c,
                None => -1,
            };
            let d = i32_to_string(c);
            m.append(d.as_str());
        },
        ExitOutcome::WaitFailed => {
            m.append(" 执行失败");
        },
    }
    m
}

} // verus!
