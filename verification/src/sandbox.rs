//! The file sandbox: every file a tool touches must lie inside the allowed
//! working directory.
use vstd::prelude::*;

use crate::text::{chars_eq, chars_of, owned};

verus! {

/// The allowed directory, as its display text and its path components (both
/// of the canonical path).
pub struct Sandbox {
    allowed_dir: String,
    root: Vec<String>,
}

/// The components of a path, as texts.
pub open spec fn parts_view(v: Seq<String>) -> Seq<Seq<char>> {
    v.map_values(|s: String| s@)
}

/// `path` lies inside `root`: the components of `root` begin those of
/// `path` (what `Path::starts_with` compares).
pub open spec fn within(root: Seq<Seq<char>>, path: Seq<Seq<char>>) -> bool {
    root.len() <= path.len() && path.take(root.len() as int) == root
}

/// Text of the refusal of a path outside the sandbox.
pub open spec fn out_of_bounds_text(display: Seq<char>) -> Seq<char> {
    "路径越界: "@ + display + " (不允许访问沙箱外的文件)"@
}

impl View for Sandbox {
    type V = (Seq<char>, Seq<Seq<char>>);

    closed spec fn view(&self) -> (Seq<char>, Seq<Seq<char>>) {
        (self.allowed_dir@, parts_view(self.root@))
    }
}

impl Sandbox {
    /// A sandbox for the canonical directory with the given display text and
    /// components.
    pub fn new(allowed_dir: String, root: Vec<String>) -> (r: Sandbox)
        ensures
            r@ == (allowed_dir@, parts_view(root@)),
    {
        Sandbox { allowed_dir, root }
    }

    /// The allowed root directory.
    pub fn allowed_dir(&self) -> (r: &str)
        ensures
            r@ == self@.0,
    {
        self.allowed_dir.as_str()
    }

    /// Whether a canonical path with the given components lies inside the
    /// sandbox.
    pub fn contains(&self, parts: &Vec<String>) -> (b: bool)
        ensures
            b == within(self@.1, parts_view(parts@)),
    {
        let ghost root = parts_view(self.root@);
        let ghost path = parts_view(parts@);
        if self.root.len() > parts.len() {
            return false;
        }
        let mut i: usize = 0;
        while i < self.root.len()
            invariant
                i <= self.root@.len(),
                self.root@.len() <= parts@.len(),
                root == parts_view(self.root@),
                path == parts_view(parts@),
                forall|t: int| 0 <= t < i ==> path[t] == root[t],
            decreases self.root@.len() - i,
        {
            let a = chars_of(self.root[i].as_str());
            let b = chars_of(parts[i].as_str());
            if !chars_eq(&a, &b) {
                assert(path.take(root.len() as int)[i as int] != root[i as int]);
                return false;
            }
            i = i + 1;
        }
        assert(path.take(root.len() as int) =~= root);
        true
    }

    /// Admits a canonical path that lies inside the sandbox; refuses any
    /// other, naming it by its display text.
    pub fn check(&self, display: &str, parts: &Vec<String>) -> (r: Result<(), String>)
        ensures
            r is Ok <==> within(self@.1, parts_view(parts@)),
            r matches Err(e) ==> e@ == out_of_bounds_text(display@),
    {
        if self.contains(parts) {
            Ok(())
        } else {
            let mut e = owned("路径越界: ");
            e.append(display);
            e.append(" (不允许访问沙箱外的文件)");
            Err(e)
        }
    }
}

/// A component that names a child: not empty, not `.` and not `..`.
pub open spec fn plain_part(p: Seq<char>) -> bool {
    p.len() > 0 && p != "."@ && p != ".."@
}

/// The displays of the found paths that lie inside `root`, in order (each
/// found path as its display text and its components).
pub open spec fn inside_paths(root: Seq<Seq<char>>, found: Seq<(Seq<char>, Seq<Seq<char>>)>) -> Seq<
    Seq<char>,
>
    decreases found.len(),
{
    if found.len() == 0 {
        Seq::empty()
    } else {
        let prev = inside_paths(root, found.drop_last());
        if within(root, found.last().1) {
            prev.push(found.last().0)
        } else {
            prev
        }
    }
}

/// A found path as (display, components).
pub open spec fn found_view(f: (String, Vec<String>)) -> (Seq<char>, Seq<Seq<char>>) {
    (f.0@, parts_view(f.1@))
}

impl Sandbox {
    /// Admits a path that does not exist yet: its nearest existing ancestor
    /// (canonical, with components `existing`) must lie inside the sandbox
    /// and every further component must name a child (no `.` or `..`). A
    /// refusal names the path by its display text.
    pub fn check_new(&self, display: &str, existing: &Vec<String>, rest: &Vec<String>) -> (r: Result<
        (),
        String,
    >)
        ensures
            r is Ok <==> within(self@.1, parts_view(existing@)) && forall|k: int|
                0 <= k < rest@.len() ==> plain_part(#[trigger] rest@[k]@),
            r is Ok ==> within(self@.1, parts_view(existing@) + parts_view(rest@)),
            r matches Err(e) ==> e@ == out_of_bounds_text(display@),
    {
        let mut ok = self.contains(existing);
        let mut k: usize = 0;
        while k < rest.len()
            invariant
                k <= rest@.len(),
                ok == (within(self@.1, parts_view(existing@)) && forall|j: int|
                    0 <= j < k ==> plain_part(#[trigger] rest@[j]@)),
            decreases rest@.len() - k,
        {
            let part = rest[k].as_str();
            proof {
                reveal_strlit(".");
                reveal_strlit("..");
            }
            let plain = !part.is_empty() && !crate::text::str_eq(part, ".") && !crate::text::str_eq(
                part,
                "..",
            );
            ok = ok && plain;
            k = k + 1;
        }
        if ok {
            proof {
                let root = self@.1;
                let ex = parts_view(existing@);
                let all = ex + parts_view(rest@);
                assert(all.take(root.len() as int) =~= ex.take(root.len() as int));
            }
            Ok(())
        } else {
            let mut e = owned("路径越界: ");
            e.append(display);
            e.append(" (不允许访问沙箱外的文件)");
            Err(e)
        }
    }

    /// The found paths that lie inside the sandbox, as their display texts,
    /// in order.
    pub fn retain_inside(&self, found: &Vec<(String, Vec<String>)>) -> (r: Vec<String>)
        ensures
            r@.map_values(|s: String| s@) == inside_paths(
                self@.1,
                found@.map_values(|f: (String, Vec<String>)| found_view(f)),
            ),
    {
        let ghost fv = found@.map_values(|f: (String, Vec<String>)| found_view(f));
        let mut r: Vec<String> = Vec::new();
        let mut i: usize = 0;
        while i < found.len()
            invariant
                i <= found@.len(),
                fv == found@.map_values(|f: (String, Vec<String>)| found_view(f)),
                r@.map_values(|s: String| s@) == inside_paths(self@.1, fv.take(i as int)),
            decreases found@.len() - i,
        {
            assert(fv.take(i + 1).drop_last() =~= fv.take(i as int));
            assert(fv.take(i + 1).last() == found_view(found@[i as int]));
            let ghost before = r@.map_values(|s: String| s@);
            if self.contains(&found[i].1) {
                r.push(found[i].0.clone());
                assert(r@.map_values(|s: String| s@) =~= before.push(found@[i as int].0@));
            }
            i = i + 1;
        }
        assert(fv.take(found@.len() as int) =~= fv);
        r
    }
}

/// Text of the refusal of a path that cannot be resolved.
pub fn invalid_path_message(path: &str, reason: &str) -> (r: String)
    ensures
        r@ == "路径无效: "@ + path@ + " ("@ + reason@ + ")"@,
{
    let mut r = owned("路径无效: ");
    r.append(path);
    r.append(" (");
    r.append(reason);
    r.append(")");
    r
}

/// The sandbox admits its own root and everything below it.
pub proof fn lemma_admits_descendants(root: Seq<Seq<char>>, below: Seq<Seq<char>>)
    ensures
        within(root, root + below),
{
    assert((root + below).take(root.len() as int) =~= root);
}

/// A path the sandbox admits is the root followed by further components.
pub proof fn lemma_admitted_paths_extend_root(root: Seq<Seq<char>>, path: Seq<Seq<char>>)
    requires
        within(root, path),
    ensures
        path == root + path.skip(root.len() as int),
{
    assert(path =~= root + path.skip(root.len() as int));
}

} // verus!
