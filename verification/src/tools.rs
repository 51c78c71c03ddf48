//! Finding the external programs: where each is looked for, and in what
//! order.
use vstd::prelude::*;
use crate::paths::{
    has_suffix, join_base, joined, joined_either, lemma_joined_base, opt_text, path_join,
    plain_component,
};
use crate::paths::{extension_of_name, name_part, simple_path};
use crate::pipeline::after_dot;
use crate::text::{chars_of, is_text, to_lower, to_lower_chars};

verus! {

/// `std::path::Path::is_file`: whether a regular file is there now. What is
/// on disk is not stated.
#[verifier::external_body]
fn path_is_file(path: &str) -> (r: bool) {
    std::path::Path::new(path).is_file()
}

/// Program names to look for, the host's own form first.
pub open spec fn program_names(base: Seq<char>, host_windows: bool) -> Seq<Seq<char>> {
    if host_windows {
        seq![base + ".exe"@, base]
    } else {
        seq![base, base + ".exe"@]
    }
}

fn program_names_for(base: &'static str, exe: &'static str, host_windows: bool) -> (r: Vec<&'static str>)
    requires
        exe@ == base@ + ".exe"@,
    ensures
        r@.len() == 2,
        r@[0]@ == program_names(base@, host_windows)[0],
        r@[1]@ == program_names(base@, host_windows)[1],
{
    let mut r: Vec<&'static str> = Vec::new();
    if host_windows {
        r.push(exe);
        r.push(base);
    } else {
        r.push(base);
        r.push(exe);
    }
    r
}

/// A place a program is looked for.
#[derive(Debug)]
pub enum ToolCandidate {
    /// A path given as it is (on the command line or in the environment).
    Given(String),
    /// A name in a folder.
    Under(String, String),
    /// A name in the `tools` folder of a root folder.
    InTools(String, String),
}

/// The text of a place.
pub enum Place {
    Given(Seq<char>),
    Under(Seq<char>, Seq<char>),
    InTools(Seq<char>, Seq<char>),
}

pub open spec fn place_of(c: ToolCandidate) -> Place {
    match c {
        ToolCandidate::Given(p) => Place::Given(p@),
        ToolCandidate::Under(d, n) => Place::Under(d@, n@),
        ToolCandidate::InTools(r, n) => Place::InTools(r@, n@),
    }
}

pub open spec fn places_of(v: Seq<ToolCandidate>) -> Seq<Place> {
    v.map_values(|c: ToolCandidate| place_of(c))
}

/// The texts of the names.
pub open spec fn name_texts(names: Seq<&'static str>) -> Seq<Seq<char>> {
    names.map_values(|n: &'static str| n@)
}

/// The texts of the strings.
pub open spec fn texts(v: Seq<String>) -> Seq<Seq<char>> {
    v.map_values(|d: String| d@)
}

/// A given path, if there is one.
pub open spec fn given(o: Option<Seq<char>>) -> Seq<Place> {
    match o {
        Some(p) => seq![Place::Given(p)],
        None => Seq::empty(),
    }
}

/// Each name in folder `dir`, in order.
pub open spec fn each_under(dir: Seq<char>, names: Seq<Seq<char>>) -> Seq<Place>
    decreases names.len(),
{
    if names.len() == 0 {
        Seq::empty()
    } else {
        each_under(dir, names.drop_last()).push(Place::Under(dir, names.last()))
    }
}

/// Each name in the `tools` folder of `root`, in order.
pub open spec fn each_in_tools(root: Seq<char>, names: Seq<Seq<char>>) -> Seq<Place>
    decreases names.len(),
{
    if names.len() == 0 {
        Seq::empty()
    } else {
        each_in_tools(root, names.drop_last()).push(Place::InTools(root, names.last()))
    }
}

/// Each name in each folder, folder by folder.
pub open spec fn each_in_dirs(dirs: Seq<Seq<char>>, names: Seq<Seq<char>>) -> Seq<Place>
    decreases dirs.len(),
{
    if dirs.len() == 0 {
        Seq::empty()
    } else {
        each_in_dirs(dirs.drop_last(), names) + each_under(dirs.last(), names)
    }
}

/// Name by name: in the `tools` folder of `root`, then in `root`.
pub open spec fn each_bundled(root: Seq<char>, names: Seq<Seq<char>>) -> Seq<Place>
    decreases names.len(),
{
    if names.len() == 0 {
        Seq::empty()
    } else {
        each_bundled(root, names.drop_last()).push(Place::InTools(root, names.last())).push(
            Place::Under(root, names.last()),
        )
    }
}

/// Where a program is looked for, in order: the explicit path, the path in
/// its environment variable, each name under `root/tools`, each name under
/// `root`, then each name in each `PATH` folder.
pub open spec fn tool_places(
    explicit: Option<Seq<char>>,
    env_value: Option<Seq<char>>,
    root: Seq<char>,
    dirs: Seq<Seq<char>>,
    names: Seq<Seq<char>>,
) -> Seq<Place> {
    given(explicit) + given(env_value) + each_in_tools(root, names) + each_under(root, names)
        + each_in_dirs(dirs, names)
}

/// Where a bundled program is looked for, in order: name by name under
/// `root/tools` and `root`, then each name in each `PATH` folder.
pub open spec fn bundled_places(root: Seq<char>, dirs: Seq<Seq<char>>, names: Seq<Seq<char>>) -> Seq<
    Place,
> {
    each_bundled(root, names) + each_in_dirs(dirs, names)
}

/// `p` is the path of place `c`: the given path itself; for a name in a
/// folder, a path ending in the name, and the folder joined with the name
/// where both are plain.
pub open spec fn resolves(c: Place, p: Seq<char>) -> bool {
    match c {
        Place::Given(q) => p == q,
        Place::Under(d, n) => (plain_component(n) ==> has_suffix(p, n)) && (plain_component(n)
            && join_base(d) ==> joined_either(p, d, n)),
        Place::InTools(root, n) => (plain_component(n) ==> has_suffix(p, n)) && (plain_component(n)
            && join_base(root) ==> exists|t: Seq<char>|
            joined_either(t, root, "tools"@) && #[trigger] joined_either(p, t, n)),
    }
}

fn push_each(v: &mut Vec<ToolCandidate>, root: &str, names: &Vec<&'static str>, in_tools: bool)
    ensures
        places_of(final(v)@) == places_of(old(v)@) + if in_tools {
            each_in_tools(root@, name_texts(names@))
        } else {
            each_under(root@, name_texts(names@))
        },
{
    let ghost start = places_of(v@);
    let ghost nt = name_texts(names@);
    let mut k: usize = 0;
    while k < names.len()
        invariant
            k <= names.len(),
            nt == name_texts(names@),
            places_of(v@) == start + if in_tools {
                each_in_tools(root@, nt.take(k as int))
            } else {
                each_under(root@, nt.take(k as int))
            },
        decreases names.len() - k,
    {
        let ghost before = v@;
        let name = String::from_str(names[k]);
        let c = if in_tools {
            ToolCandidate::InTools(String::from_str(root), name)
        } else {
            ToolCandidate::Under(String::from_str(root), name)
        };
        v.push(c);
        proof {
            assert(nt.take(k + 1).drop_last() =~= nt.take(k as int));
            assert(nt.take(k + 1).last() == names@[k as int]@);
            assert(places_of(v@) =~= places_of(before).push(place_of(c)));
        }
        k = k + 1;
    }
    assert(nt.take(k as int) =~= nt);
}

fn push_each_dir(v: &mut Vec<ToolCandidate>, dirs: &Vec<String>, names: &Vec<&'static str>)
    ensures
        places_of(final(v)@) == places_of(old(v)@) + each_in_dirs(texts(dirs@), name_texts(names@)),
{
    let ghost start = places_of(v@);
    let ghost dt = texts(dirs@);
    let mut i: usize = 0;
    while i < dirs.len()
        invariant
            i <= dirs.len(),
            dt == texts(dirs@),
            places_of(v@) == start + each_in_dirs(dt.take(i as int), name_texts(names@)),
        decreases dirs.len() - i,
    {
        let ghost before = places_of(v@);
        push_each(v, dirs[i].as_str(), names, false);
        proof {
            assert(dt.take(i + 1).drop_last() =~= dt.take(i as int));
            assert(dt.take(i + 1).last() == dirs@[i as int]@);
            assert(places_of(v@) =~= start + each_in_dirs(dt.take(i + 1), name_texts(names@)));
        }
        i = i + 1;
    }
    assert(dt.take(i as int) =~= dt);
}

/// Where a program is looked for, in order (see `tool_places`).
pub fn tool_candidates(
    explicit: &Option<String>,
    env_value: &Option<String>,
    root: &str,
    path_dirs: &Vec<String>,
    names: &Vec<&'static str>,
) -> (r: Vec<ToolCandidate>)
    ensures
        places_of(r@) == tool_places(
            opt_text(*explicit),
            opt_text(*env_value),
            root@,
            texts(path_dirs@),
            name_texts(names@),
        ),
{
    let mut v: Vec<ToolCandidate> = Vec::new();
    if let Some(e) = explicit {
        v.push(ToolCandidate::Given(e.clone()));
    }
    if let Some(e) = env_value {
        v.push(ToolCandidate::Given(e.clone()));
    }
    assert(places_of(v@) =~= given(opt_text(*explicit)) + given(opt_text(*env_value)));
    push_each(&mut v, root, names, true);
    push_each(&mut v, root, names, false);
    push_each_dir(&mut v, path_dirs, names);
    assert(places_of(v@) =~= tool_places(
        opt_text(*explicit),
        opt_text(*env_value),
        root@,
        texts(path_dirs@),
        name_texts(names@),
    ));
    v
}

/// Where a bundled program is looked for, in order (see `bundled_places`).
pub fn bundled_candidates(root: &str, path_dirs: &Vec<String>, names: &Vec<&'static str>) -> (r: Vec<
    ToolCandidate,
>)
    ensures
        places_of(r@) == bundled_places(root@, texts(path_dirs@), name_texts(names@)),
{
    let ghost nt = name_texts(names@);
    let mut v: Vec<ToolCandidate> = Vec::new();
    let mut k: usize = 0;
    while k < names.len()
        invariant
            k <= names.len(),
            nt == name_texts(names@),
            places_of(v@) == each_bundled(root@, nt.take(k as int)),
        decreases names.len() - k,
    {
        let ghost before = v@;
        let c1 = ToolCandidate::InTools(String::from_str(root), String::from_str(names[k]));
        let c2 = ToolCandidate::Under(String::from_str(root), String::from_str(names[k]));
        v.push(c1);
        v.push(c2);
        proof {
            assert(nt.take(k + 1).drop_last() =~= nt.take(k as int));
            assert(nt.take(k + 1).last() == names@[k as int]@);
            assert(places_of(v@) =~= places_of(before).push(place_of(c1)).push(place_of(c2)));
        }
        k = k + 1;
    }
    assert(nt.take(k as int) =~= nt);
    push_each_dir(&mut v, path_dirs, names);
    v
}

/// The path a place names, joined by the platform's rules.
pub fn candidate_path(c: &ToolCandidate) -> (r: String)
    ensures
        resolves(place_of(*c), r@),
{
    match c {
        ToolCandidate::Given(p) => p.clone(),
        ToolCandidate::Under(d, n) => path_join(d.as_str(), n.as_str()),
        ToolCandidate::InTools(root, n) => {
            let t = path_join(root.as_str(), "tools");
            let r = path_join(t.as_str(), n.as_str());
            proof {
                reveal_strlit("tools");
                let tools = "tools"@;
                assert(plain_component(tools));
                if plain_component(n@) && join_base(root@) {
                    if t@ == joined(root@, tools, '/') {
                        lemma_joined_base(root@, tools, '/');
                    } else {
                        lemma_joined_base(root@, tools, '\\');
                    }
                    assert(joined_either(r@, t@, n@));
                }
            }
            r
        },
    }
}

/// Of `paths` checked in order with `answers`, `r` is the first path whose
/// answer is yes, or none where no answer is yes.
pub open spec fn first_yes(paths: Seq<Seq<char>>, answers: Seq<bool>, r: Option<Seq<char>>) -> bool {
    match r {
        Some(p) => exists|k: int|
            0 <= k < answers.len() && answers[k] && p == paths[k] && forall|j: int|
                0 <= j < k ==> !#[trigger] answers[j],
        None => forall|j: int| 0 <= j < answers.len() ==> !#[trigger] answers[j],
    }
}

/// The places were checked in order, stopping at the first yes: `paths[j]`
/// is the path of place `j` and `answers[j]` what the file check said of
/// it; checking went on past a place only on a no, and stopped before the
/// end only on a yes.
pub open spec fn checked_in_order(places: Seq<Place>, paths: Seq<Seq<char>>, answers: Seq<bool>) -> bool {
    &&& paths.len() == answers.len()
    &&& answers.len() <= places.len()
    &&& forall|j: int| 0 <= j < paths.len() ==> #[trigger] resolves(places[j], paths[j])
    &&& forall|j: int| 0 <= j < answers.len() - 1 ==> !#[trigger] answers[j]
    &&& answers.len() < places.len() ==> answers.len() > 0 && answers.last()
}

/// What a search over `places` gives: the places checked in order, and the
/// first path whose check said yes (none where every check said no).
pub open spec fn search_result(places: Seq<Place>, r: Option<Seq<char>>) -> bool {
    exists|paths: Seq<Seq<char>>, answers: Seq<bool>|
        checked_in_order(places, paths, answers) && #[trigger] first_yes(paths, answers, r)
}

/// The first candidate whose file check says yes, given the answers for
/// the first candidates in order (a candidate with no answer was not
/// checked); `None` where none says yes.
pub fn first_existing(candidates: &Vec<String>, is_file: &Vec<bool>) -> (r: Option<String>)
    requires
        is_file.len() <= candidates.len(),
    ensures
        first_yes(texts(candidates@), is_file@, opt_text(r)),
{
    let mut k: usize = 0;
    while k < is_file.len()
        invariant
            k <= is_file.len(),
            is_file.len() <= candidates.len(),
            forall|j: int| 0 <= j < k ==> !#[trigger] is_file@[j],
        decreases is_file.len() - k,
    {
        if is_file[k] {
            return Some(candidates[k].clone());
        }
        k = k + 1;
    }
    None
}

/// Checks the candidates in order, stopping at the first that is a file,
/// and gives that one (`first_existing` over the answers). What is on disk
/// decides the answers.
fn first_file(candidates: &Vec<ToolCandidate>) -> (r: Option<String>)
    ensures
        search_result(places_of(candidates@), opt_text(r)),
{
    let mut paths: Vec<String> = Vec::new();
    let mut answers: Vec<bool> = Vec::new();
    let mut found = false;
    let mut i: usize = 0;
    while i < candidates.len() && !found
        invariant
            i <= candidates.len(),
            paths.len() == i,
            answers.len() == i,
            forall|j: int| 0 <= j < i ==> resolves(place_of(candidates@[j]), #[trigger] paths@[j]@),
            forall|j: int| 0 <= j < i - 1 ==> !#[trigger] answers@[j],
            found ==> i > 0 && answers@[i - 1],
            !found && i > 0 ==> !answers@[i - 1],
        decreases candidates.len() - i,
    {
        let p = candidate_path(&candidates[i]);
        let f = path_is_file(p.as_str());
        paths.push(p);
        answers.push(f);
        found = f;
        i = i + 1;
    }
    let r = first_existing(&paths, &answers);
    proof {
        let places = places_of(candidates@);
        let ps = texts(paths@);
        assert forall|j: int| 0 <= j < ps.len() implies #[trigger] resolves(places[j], ps[j]) by {
            assert(resolves(place_of(candidates@[j]), paths@[j]@));
        }
        assert(checked_in_order(places, ps, answers@));
        assert(first_yes(ps, answers@, opt_text(r)));
    }
    r
}

/// Looks for a program: the explicit path, then the path in its
/// environment variable, then each name under `root/tools` and `root`, then
/// each name in each `PATH` folder (`tool_places`); the first that is a
/// file wins.
pub fn find_tool(
    explicit: &Option<String>,
    env_value: &Option<String>,
    root: &str,
    path_dirs: &Vec<String>,
    names: &Vec<&'static str>,
) -> (r: Option<String>)
    ensures
        search_result(
            tool_places(
                opt_text(*explicit),
                opt_text(*env_value),
                root@,
                texts(path_dirs@),
                name_texts(names@),
            ),
            opt_text(r),
        ),
{
    let candidates = tool_candidates(explicit, env_value, root, path_dirs, names);
    first_file(&candidates)
}

/// Looks for a bundled program (the Poppler tools, `jpegtran`): each name
/// under `root/tools` and then `root`, name by name, then each name in each
/// `PATH` folder (`bundled_places`); the first that is a file wins.
pub fn find_bundled_tool(root: &str, path_dirs: &Vec<String>, names: &Vec<&'static str>) -> (r: Option<
    String,
>)
    ensures
        search_result(bundled_places(root@, texts(path_dirs@), name_texts(names@)), opt_text(r)),
{
    let candidates = bundled_candidates(root, path_dirs, names);
    first_file(&candidates)
}

/// The explicit path wins: where it is given and its check says yes, the
/// search gives it, whatever the environment and the folders hold.
pub proof fn lemma_explicit_path_wins(
    e: Seq<char>,
    env_value: Option<Seq<char>>,
    root: Seq<char>,
    dirs: Seq<Seq<char>>,
    names: Seq<Seq<char>>,
    paths: Seq<Seq<char>>,
    answers: Seq<bool>,
    r: Option<Seq<char>>,
)
    requires
        checked_in_order(tool_places(Some(e), env_value, root, dirs, names), paths, answers),
        answers.len() > 0,
        answers[0],
        first_yes(paths, answers, r),
    ensures
        r == Some(e),
{
    let places = tool_places(Some(e), env_value, root, dirs, names);
    assert(places[0] == Place::Given(e));
    assert(resolves(places[0], paths[0]));
    if r is Some {
        let k = choose|k: int|
            0 <= k < answers.len() && answers[k] && r->0 == paths[k] && forall|j: int|
                0 <= j < k ==> !#[trigger] answers[j];
        if k > 0 {
            assert(!answers[0]);
        }
    } else {
        assert(!answers[0]);
    }
}

/// The environment's path comes next: where the explicit path is missing
/// or its check says no, and the environment's path is given and its check
/// says yes, the search gives the environment's path.
pub proof fn lemma_environment_path_next(
    explicit: Option<Seq<char>>,
    v: Seq<char>,
    root: Seq<char>,
    dirs: Seq<Seq<char>>,
    names: Seq<Seq<char>>,
    paths: Seq<Seq<char>>,
    answers: Seq<bool>,
    r: Option<Seq<char>>,
)
    requires
        checked_in_order(tool_places(explicit, Some(v), root, dirs, names), paths, answers),
        explicit is Some ==> answers.len() > 0 && !answers[0],
        answers.len() > given(explicit).len(),
        answers[given(explicit).len() as int],
        first_yes(paths, answers, r),
    ensures
        r == Some(v),
{
    let places = tool_places(explicit, Some(v), root, dirs, names);
    let n = given(explicit).len() as int;
    assert(places[n] == Place::Given(v));
    assert(resolves(places[n], paths[n]));
    if r is Some {
        let k = choose|k: int|
            0 <= k < answers.len() && answers[k] && r->0 == paths[k] && forall|j: int|
                0 <= j < k ==> !#[trigger] answers[j];
        if k > n {
            assert(!answers[n]);
        }
        if k < n {
            assert(k == 0);
        }
    } else {
        assert(!answers[n]);
    }
}

/// The names a bundled program is looked for under, the host's own form
/// first: `base` and `base.exe`.
pub fn bundled_names(base: &'static str, exe: &'static str, host_windows: bool) -> (r: Vec<&'static str>)
    requires
        exe@ == base@ + ".exe"@,
    ensures
        r@.len() == 2,
        r@[0]@ == program_names(base@, host_windows)[0],
        r@[1]@ == program_names(base@, host_windows)[1],
{
    program_names_for(base, exe, host_windows)
}

/// Looks for `scantailor-cli`, given what the environment variable
/// `IMG2PDF_SCANTAILOR` holds and the folders of `PATH`.
pub fn find_scantailor(
    explicit: &Option<String>,
    env_value: &Option<String>,
    root: &str,
    path_dirs: &Vec<String>,
    host_windows: bool,
) -> (r: Option<String>)
    ensures
        search_result(
            tool_places(
                opt_text(*explicit),
                opt_text(*env_value),
                root@,
                texts(path_dirs@),
                program_names("scantailor-cli"@, host_windows),
            ),
            opt_text(r),
        ),
{
    proof {
        reveal_strlit("scantailor-cli");
        reveal_strlit("scantailor-cli.exe");
        reveal_strlit(".exe");
        assert("scantailor-cli.exe"@ =~= "scantailor-cli"@ + ".exe"@);
    }
    let names = program_names_for("scantailor-cli", "scantailor-cli.exe", host_windows);
    assert(name_texts(names@) =~= program_names("scantailor-cli"@, host_windows));
    let r = find_tool(explicit, env_value, root, path_dirs, &names);
    r
}

/// Looks for `realesrgan-ncnn-vulkan`, given what the environment variable
/// `IMG2PDF_REALESRGAN` holds and the folders of `PATH`.
pub fn find_realesrgan(
    explicit: &Option<String>,
    env_value: &Option<String>,
    root: &str,
    path_dirs: &Vec<String>,
    host_windows: bool,
) -> (r: Option<String>)
    ensures
        search_result(
            tool_places(
                opt_text(*explicit),
                opt_text(*env_value),
                root@,
                texts(path_dirs@),
                program_names("realesrgan-ncnn-vulkan"@, host_windows),
            ),
            opt_text(r),
        ),
{
    proof {
        reveal_strlit("realesrgan-ncnn-vulkan");
        reveal_strlit("realesrgan-ncnn-vulkan.exe");
        reveal_strlit(".exe");
        assert("realesrgan-ncnn-vulkan.exe"@ =~= "realesrgan-ncnn-vulkan"@ + ".exe"@);
    }
    let names = program_names_for("realesrgan-ncnn-vulkan", "realesrgan-ncnn-vulkan.exe", host_windows);
    assert(name_texts(names@) =~= program_names("realesrgan-ncnn-vulkan"@, host_windows));
    let r = find_tool(explicit, env_value, root, path_dirs, &names);
    r
}

/// Whether an extension is `exe` in any ASCII case.
pub open spec fn exe_extension(extension: Option<Seq<char>>) -> bool {
    extension matches Some(e) && to_lower(e) == "exe"@
}

/// Whether a program must be started through Windows interop: an `.exe`
/// on a host that is not Windows.
pub fn is_windows_executable_extension(extension: &Option<String>, host_windows: bool) -> (r: bool)
    ensures
        r == (!host_windows && exe_extension(match extension {
            Some(e) => Some(e@),
            None => None,
        })),
{
    if host_windows {
        return false;
    }
    match extension {
        Some(e) => is_text(&to_lower_chars(&chars_of(e.as_str())), "exe"),
        None => false,
    }
}

/// Whether the program at `path` must be started through Windows interop.
pub fn is_windows_executable(path: &str, host_windows: bool) -> (r: bool)
    ensures
        r ==> !host_windows && exists|e: Seq<char>| after_dot(path@, e) && to_lower(e) == "exe"@,
        simple_path(path@) ==> r == (!host_windows && exe_extension(
            extension_of_name(name_part(path@)),
        )),
{
    let e = crate::pipeline::path_extension(path);
    is_windows_executable_extension(&e, host_windows)
}

} // verus!
