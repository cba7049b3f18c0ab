//! Scaffolding plans: validation and content generation for new
//! collections and playbooks, and helpers over discovered file lists.
//! The caller carries the plans out on the filesystem.

use vstd::prelude::*;
use crate::strings::{has_sub, first_occur, find_sub, lemma_first_occur};

verus! {

/// The views of a list of strings.
pub open spec fn str_views(v: Seq<String>) -> Seq<Seq<char>> {
    Seq::new(v.len(), |i: int| v[i]@)
}

/// Concatenation of text pieces in order.
pub open spec fn concat_texts(parts: Seq<Seq<char>>) -> Seq<char>
    decreases parts.len(),
{
    if parts.len() == 0 {
        Seq::empty()
    } else {
        concat_texts(parts.drop_last()) + parts.last()
    }
}

/// Concatenation of text pieces, each followed by the separator.
pub open spec fn concat_texts_sep(parts: Seq<Seq<char>>, sep: Seq<char>) -> Seq<char>
    decreases parts.len(),
{
    if parts.len() == 0 {
        Seq::empty()
    } else {
        concat_texts_sep(parts.drop_last(), sep) + parts.last() + sep
    }
}

/// Joins file contents in order.
pub fn join_files(contents: &Vec<String>) -> (r: String)
    ensures
        r@ == concat_texts(str_views(contents@)),
{
    let ghost parts = str_views(contents@);
    let mut out = String::new();
    let mut i: usize = 0;
    while i < contents.len()
        invariant
            i <= contents.len(),
            parts == str_views(contents@),
            out@ == concat_texts(parts.subrange(0, i as int)),
        decreases contents.len() - i,
    {
        proof {
            assert(parts.subrange(0, i as int + 1).drop_last() =~= parts.subrange(0, i as int));
            assert(parts.subrange(0, i as int + 1).last() == parts[i as int]);
        }
        out.append(contents[i].as_str());
        i = i + 1;
    }
    proof {
        assert(parts.subrange(0, parts.len() as int) =~= parts);
    }
    out
}

/// Joins file contents in order, each followed by the separator; the
/// caller writes the result to its destination.
pub fn join_files_into(contents: &Vec<String>, separator: &str) -> (r: String)
    ensures
        r@ == concat_texts_sep(str_views(contents@), separator@),
{
    let ghost parts = str_views(contents@);
    let mut out = String::new();
    let mut i: usize = 0;
    while i < contents.len()
        invariant
            i <= contents.len(),
            parts == str_views(contents@),
            out@ == concat_texts_sep(parts.subrange(0, i as int), separator@),
        decreases contents.len() - i,
    {
        proof {
            assert(parts.subrange(0, i as int + 1).drop_last() =~= parts.subrange(0, i as int));
            assert(parts.subrange(0, i as int + 1).last() == parts[i as int]);
        }
        out.append(contents[i].as_str());
        out.append(separator);
        proof {
            assert(out@ =~= concat_texts_sep(parts.subrange(0, i as int + 1), separator@));
        }
        i = i + 1;
    }
    proof {
        assert(parts.subrange(0, parts.len() as int) =~= parts);
    }
    out
}

/// Inserting an element anywhere adds exactly it to the multiset.
proof fn lemma_insert_to_multiset(s: Seq<String>, i: int, x: String)
    requires
        0 <= i <= s.len(),
    ensures
        s.insert(i, x).to_multiset() =~= s.to_multiset().insert(x),
{
    broadcast use vstd::seq_lib::group_to_multiset_ensures;

    let t = s.insert(i, x);
    assert(t.remove(i) =~= s);
    assert(t[i] == x);
    assert(t.remove(i).to_multiset() =~= t.to_multiset().remove(t[i]));
    assert(t.contains(x));
    assert(t.to_multiset().count(x) > 0);
    assert(t.to_multiset() =~= t.to_multiset().remove(x).insert(x));
}

/// Index of the first element of more than `n` characters; the whole
/// length when every element fits in `n`.
pub open spec fn first_longer_index(s: Seq<String>, n: nat) -> int
    decreases s.len(),
{
    if s.len() == 0 {
        0
    } else if s[0]@.len() <= n {
        1 + first_longer_index(s.drop_first(), n)
    } else {
        0
    }
}

proof fn lemma_first_longer_index(s: Seq<String>, n: nat)
    ensures
        0 <= first_longer_index(s, n) <= s.len(),
        forall|j: int| 0 <= j < first_longer_index(s, n) ==> s[j]@.len() <= n,
        first_longer_index(s, n) < s.len() ==> s[first_longer_index(s, n)]@.len() > n,
    decreases s.len(),
{
    if s.len() > 0 && s[0]@.len() <= n {
        lemma_first_longer_index(s.drop_first(), n);
        let f = first_longer_index(s.drop_first(), n);
        assert forall|j: int| 0 <= j < 1 + f implies s[j]@.len() <= n by {
            if j > 0 {
                assert(s.drop_first()[j - 1]@.len() <= n);
            }
        }
    }
}

proof fn lemma_first_longer_index_is(s: Seq<String>, n: nat, i: int)
    requires
        0 <= i <= s.len(),
        forall|j: int| 0 <= j < i ==> s[j]@.len() <= n,
        i < s.len() ==> s[i]@.len() > n,
    ensures
        first_longer_index(s, n) == i,
    decreases i,
{
    if i == 0 {
    } else {
        assert(s[0]@.len() <= n);
        assert forall|j: int| 0 <= j < i - 1 implies s.drop_first()[j]@.len() <= n by {
            assert(s.drop_first()[j] == s[j + 1]);
        }
        assert(i - 1 < s.drop_first().len() ==> s.drop_first()[i - 1]@.len() > n);
        lemma_first_longer_index_is(s.drop_first(), n, i - 1);
    }
}

/// The list with `x` inserted before the first element longer than it:
/// after every element of equal or shorter length, which keeps
/// equal-length elements in their original relative order.
pub open spec fn insert_by_len(s: Seq<String>, x: String) -> Seq<String> {
    s.insert(first_longer_index(s, x@.len()), x)
}

/// Insertion sort by character count: a stable sort, shortest first.
pub open spec fn stable_sort_by_len(s: Seq<String>) -> Seq<String>
    decreases s.len(),
{
    if s.len() == 0 {
        Seq::empty()
    } else {
        insert_by_len(stable_sort_by_len(s.drop_last()), s.last())
    }
}

/// Sorts a file list by path length, shortest first, keeping exactly the
/// same paths; elements of equal length keep their relative order (the
/// result is exactly the stable insertion sort of the input).
pub fn sort_files_by_path_length(files: &mut Vec<String>)
    ensures
        final(files)@ == stable_sort_by_len(old(files)@),
        final(files)@.to_multiset() == old(files)@.to_multiset(),
        final(files)@.len() == old(files)@.len(),
        forall|i: int, j: int| 0 <= i <= j < final(files)@.len() ==> final(files)@[i]@.len()
            <= final(files)@[j]@.len(),
{
    broadcast use vstd::seq_lib::group_to_multiset_ensures;

    let mut out: Vec<String> = Vec::new();
    proof {
        assert(files@.subrange(0, 0) =~= Seq::<String>::empty());
        assert(out@ =~= stable_sort_by_len(files@.subrange(0, 0)));
    }
    let mut k: usize = 0;
    while k < files.len()
        invariant
            k <= files.len(),
            out@.len() == k as int,
            out@ == stable_sort_by_len(files@.subrange(0, k as int)),
            out@.to_multiset() == files@.subrange(0, k as int).to_multiset(),
            forall|i: int, j: int| 0 <= i <= j < out@.len() ==> out@[i]@.len() <= out@[j]@.len(),
        decreases files.len() - k,
    {
        let x = files[k].clone();
        let xlen = x.as_str().unicode_len();
        let ghost outv = out@;
        let mut idx: usize = 0;
        loop
            invariant_except_break
                idx <= out.len(),
                out@ == outv,
                xlen == x@.len(),
                forall|l: int| 0 <= l < idx as int ==> out@[l]@.len() <= x@.len(),
            ensures
                idx <= out@.len(),
                out@ == outv,
                xlen == x@.len(),
                forall|l: int| 0 <= l < idx as int ==> out@[l]@.len() <= x@.len(),
                idx < out@.len() ==> out@[idx as int]@.len() > x@.len(),
            decreases out.len() - idx,
        {
            if idx >= out.len() {
                break ;
            }
            if out[idx].as_str().unicode_len() > xlen {
                break ;
            }
            idx = idx + 1;
        }
        proof {
            broadcast use vstd::seq_lib::group_to_multiset_ensures;

            lemma_insert_to_multiset(out@, idx as int, x);
            assert(files@.subrange(0, k as int + 1) =~= files@.subrange(0, k as int).push(
                files@[k as int],
            ));
            assert(files@.subrange(0, k as int).push(files@[k as int]).to_multiset()
                =~= files@.subrange(0, k as int).to_multiset().insert(files@[k as int]));
            assert(x == files@[k as int]);
            assert(idx < out@.len() ==> out@[idx as int]@.len() > x@.len());
            lemma_first_longer_index_is(out@, x@.len(), idx as int);
            assert(files@.subrange(0, k as int + 1).drop_last() =~= files@.subrange(0, k as int));
            assert(files@.subrange(0, k as int + 1).last() == files@[k as int]);
        }
        let ghost pre_insert = out@;
        out.insert(idx, x);
        proof {
            assert forall|i: int, j: int|
                0 <= i <= j < out@.len() implies out@[i]@.len() <= out@[j]@.len() by {
                let t = pre_insert.insert(idx as int, x);
                assert(out@ == t);
                if i < idx as int {
                    assert(t[i] == pre_insert[i]);
                }
                if j < idx as int {
                    assert(t[j] == pre_insert[j]);
                }
                if i > idx as int {
                    assert(t[i] == pre_insert[i - 1]);
                }
                if j > idx as int {
                    assert(t[j] == pre_insert[j - 1]);
                }
            }
        }
        k = k + 1;
    }
    proof {
        assert(files@.subrange(0, files@.len() as int) =~= files@);
    }
    *files = out;
}

/// One file of a scaffolding plan.
pub struct ScaffoldFile {
    pub path: String,
    pub content: String,
}

/// What a scaffolding action would create: folders first, then files;
/// `force_update` lets existing files be overwritten.
pub struct ScaffoldPlan {
    pub folders: Vec<String>,
    pub files: Vec<ScaffoldFile>,
    pub force_update: bool,
}

/// The shared collections folder.
pub open spec fn collections_folder_path() -> Seq<char> {
    "./collections"@
}

/// A namespace folder under the collections tree.
pub open spec fn namespace_folder_path(ns: Seq<char>) -> Seq<char> {
    "./collections/"@ + ns
}

/// A collection folder under its namespace.
pub open spec fn collection_folder_path(ns: Seq<char>, col: Seq<char>) -> Seq<char> {
    namespace_folder_path(ns) + "/"@ + col
}

/// The core folder of a collection.
pub open spec fn core_folder_path(ns: Seq<char>, col: Seq<char>) -> Seq<char> {
    collection_folder_path(ns, col) + "/core"@
}

/// The seed variables of a namespace.
pub open spec fn namespace_vars_content(ns: Seq<char>) -> Seq<char> {
    "#!chgops.namespace\n"@ + ns + ": level1\n"@
}

/// The seed variables of a collection.
pub open spec fn collection_vars_content(ns: Seq<char>, col: Seq<char>) -> Seq<char> {
    "#!chgops.collection\n"@ + ns + "_"@ + col + ": level2\n"@
}

/// The seed variables of a collection's core.
pub open spec fn core_vars_content(ns: Seq<char>, col: Seq<char>) -> Seq<char> {
    "#!chgops.core\n"@ + ns + "_"@ + col + "_core: level2\n"@
}

/// The message rejecting a too-short namespace name.
pub open spec fn bad_namespace_msg(ns: Seq<char>) -> Seq<char> {
    "Invalid namespace name: "@ + ns
        + ". Namespace name must be a non empty string with more than 2 characters"@
}

/// The message rejecting a too-short collection name.
pub open spec fn bad_collection_msg(col: Seq<char>) -> Seq<char> {
    "Invalid collection name: "@ + col
        + ". Collection name must be a non empty string with more than 2 characters"@
}

/// Plans the initialization of a collection in a namespace: both names
/// must have at least two characters; the plan creates the namespace,
/// collection and core folders and seeds each with a variables file.
pub fn collection_init(namespace_name: &str, collection_name: &str, force_update: bool) -> (r:
    Result<ScaffoldPlan, String>)
    ensures
        r is Ok <==> namespace_name@.len() >= 2 && collection_name@.len() >= 2,
        namespace_name@.len() < 2 ==> (r matches Err(m) && m@ == bad_namespace_msg(
            namespace_name@,
        )),
        namespace_name@.len() >= 2 && collection_name@.len() < 2 ==> (r matches Err(m) && m@
            == bad_collection_msg(collection_name@)),
        r matches Ok(p) ==> {
            let ns = namespace_name@;
            let col = collection_name@;
            &&& p.force_update == force_update
            &&& p.folders@.len() == 4
            &&& p.folders@[0]@ == collections_folder_path()
            &&& p.folders@[1]@ == namespace_folder_path(ns)
            &&& p.folders@[2]@ == collection_folder_path(ns, col)
            &&& p.folders@[3]@ == core_folder_path(ns, col)
            &&& p.files@.len() == 3
            &&& p.files@[0].path@ == namespace_folder_path(ns) + "/vars.yaml"@
            &&& p.files@[0].content@ == namespace_vars_content(ns)
            &&& p.files@[1].path@ == collection_folder_path(ns, col) + "/vars.yaml"@
            &&& p.files@[1].content@ == collection_vars_content(ns, col)
            &&& p.files@[2].path@ == core_folder_path(ns, col) + "/vars.yaml"@
            &&& p.files@[2].content@ == core_vars_content(ns, col)
        },
{
    if namespace_name.unicode_len() < 2 {
        let mut m = String::from_str("Invalid namespace name: ");
        m.append(namespace_name);
        m.append(". Namespace name must be a non empty string with more than 2 characters");
        proof {
            assert(m@ =~= bad_namespace_msg(namespace_name@));
        }
        return Err(m);
    }
    if collection_name.unicode_len() < 2 {
        let mut m = String::from_str("Invalid collection name: ");
        m.append(collection_name);
        m.append(". Collection name must be a non empty string with more than 2 characters");
        proof {
            assert(m@ =~= bad_collection_msg(collection_name@));
        }
        return Err(m);
    }
    let mut ns_folder = String::from_str("./collections/");
    ns_folder.append(namespace_name);
    let mut col_folder = ns_folder.clone();
    col_folder.append("/");
    col_folder.append(collection_name);
    let mut core_folder = col_folder.clone();
    core_folder.append("/core");
    let mut folders: Vec<String> = Vec::new();
    folders.push(String::from_str("./collections"));
    folders.push(ns_folder.clone());
    folders.push(col_folder.clone());
    folders.push(core_folder.clone());

    let mut ns_vars = ns_folder.clone();
    ns_vars.append("/vars.yaml");
    let mut col_vars = col_folder.clone();
    col_vars.append("/vars.yaml");
    let mut core_vars = core_folder.clone();
    core_vars.append("/vars.yaml");

    let mut c1 = String::from_str("#!chgops.namespace\n");
    c1.append(namespace_name);
    c1.append(": level1\n");
    let mut c2 = String::from_str("#!chgops.collection\n");
    c2.append(namespace_name);
    c2.append("_");
    c2.append(collection_name);
    c2.append(": level2\n");
    let mut c3 = String::from_str("#!chgops.core\n");
    c3.append(namespace_name);
    c3.append("_");
    c3.append(collection_name);
    c3.append("_core: level2\n");

    let mut files: Vec<ScaffoldFile> = Vec::new();
    files.push(ScaffoldFile { path: ns_vars, content: c1 });
    files.push(ScaffoldFile { path: col_vars, content: c2 });
    files.push(ScaffoldFile { path: core_vars, content: c3 });
    let p = ScaffoldPlan { folders, files, force_update };
    proof {
        let ns = namespace_name@;
        let col = collection_name@;
        assert(p.folders@[1]@ =~= namespace_folder_path(ns));
        assert(p.folders@[2]@ =~= collection_folder_path(ns, col));
        assert(p.folders@[3]@ =~= core_folder_path(ns, col));
        assert(p.files@[0].path@ =~= namespace_folder_path(ns) + "/vars.yaml"@);
        assert(p.files@[0].content@ =~= namespace_vars_content(ns));
        assert(p.files@[1].path@ =~= collection_folder_path(ns, col) + "/vars.yaml"@);
        assert(p.files@[1].content@ =~= collection_vars_content(ns, col));
        assert(p.files@[2].path@ =~= core_folder_path(ns, col) + "/vars.yaml"@);
        assert(p.files@[2].content@ =~= core_vars_content(ns, col));
    }
    Ok(p)
}

/// The message rejecting a malformed test scope.
pub open spec fn bad_scope_msg(scope: Seq<char>) -> Seq<char> {
    "Invalid scope format: "@ + scope + ". Expected format: namespace.collection"@
}

/// A scope splits as `namespace.collection`: exactly one dot.
pub open spec fn scope_has_one_dot(s: Seq<char>) -> bool {
    has_sub(s, "."@) && !has_sub(s.skip(first_occur(s, "."@) + 1), "."@)
}

/// Plans a collection test: the scope must be `namespace.collection` with
/// names of at least two characters; the plan lists the folders and
/// variables files whose existence the caller checks.
pub fn collection_test(scope: &str) -> (r: Result<Vec<String>, String>)
    ensures
        r is Ok <==> scope_has_one_dot(scope@) && ({
            let p = first_occur(scope@, "."@);
            p >= 2 && scope@.len() - p - 1 >= 2
        }),
        r matches Ok(paths) ==> {
            let p = first_occur(scope@, "."@);
            let ns = scope@.subrange(0, p);
            let col = scope@.skip(p + 1);
            &&& paths@.len() == 7
            &&& paths@[0]@ == collections_folder_path()
            &&& paths@[1]@ == namespace_folder_path(ns)
            &&& paths@[2]@ == collection_folder_path(ns, col)
            &&& paths@[3]@ == core_folder_path(ns, col)
            &&& paths@[4]@ == namespace_folder_path(ns) + "/vars.yaml"@
            &&& paths@[5]@ == collection_folder_path(ns, col) + "/vars.yaml"@
            &&& paths@[6]@ == core_folder_path(ns, col) + "/vars.yaml"@
        },
{
    proof {
        reveal_strlit(".");
        assert(scope@.skip(0) =~= scope@);
    }
    let n = scope.unicode_len();
    let p = match find_sub(scope, ".", 0) {
        Some(p) => p,
        None => {
            let mut m = String::from_str("Invalid scope format: ");
            m.append(scope);
            m.append(". Expected format: namespace.collection");
            proof {
                assert(m@ =~= bad_scope_msg(scope@));
            }
            return Err(m);
        },
    };
    proof {
        lemma_first_occur(scope@, "."@);
        assert(first_occur(scope@, "."@) == p as int);
    }
    match find_sub(scope, ".", p + 1) {
        Some(_) => {
            let mut m = String::from_str("Invalid scope format: ");
            m.append(scope);
            m.append(". Expected format: namespace.collection");
            proof {
                assert(m@ =~= bad_scope_msg(scope@));
            }
            return Err(m);
        },
        None => {},
    }
    let namespace_name = scope.substring_char(0, p);
    let collection_name = scope.substring_char(p + 1, n);
    proof {
        assert(namespace_name@ =~= scope@.subrange(0, p as int));
        assert(collection_name@ =~= scope@.skip(p as int + 1));
    }
    if namespace_name.unicode_len() < 2 {
        let mut m = String::from_str("Invalid namespace name: ");
        m.append(namespace_name);
        m.append(". Namespace name must be a non empty string with more than 2 characters");
        return Err(m);
    }
    if collection_name.unicode_len() < 2 {
        let mut m = String::from_str("Invalid collection name: ");
        m.append(collection_name);
        m.append(". Collection name must be a non empty string with more than 2 characters");
        return Err(m);
    }
    let mut ns_folder = String::from_str("./collections/");
    ns_folder.append(namespace_name);
    let mut col_folder = ns_folder.clone();
    col_folder.append("/");
    col_folder.append(collection_name);
    let mut core_folder = col_folder.clone();
    core_folder.append("/core");
    let mut ns_vars = ns_folder.clone();
    ns_vars.append("/vars.yaml");
    let mut col_vars = col_folder.clone();
    col_vars.append("/vars.yaml");
    let mut core_vars = core_folder.clone();
    core_vars.append("/vars.yaml");
    let mut paths: Vec<String> = Vec::new();
    paths.push(String::from_str("./collections"));
    paths.push(ns_folder);
    paths.push(col_folder);
    paths.push(core_folder);
    paths.push(ns_vars);
    paths.push(col_vars);
    paths.push(core_vars);
    proof {
        let ns = scope@.subrange(0, p as int);
        let col = scope@.skip(p as int + 1);
        assert(paths@[1]@ =~= namespace_folder_path(ns));
        assert(paths@[2]@ =~= collection_folder_path(ns, col));
        assert(paths@[3]@ =~= core_folder_path(ns, col));
        assert(paths@[4]@ =~= namespace_folder_path(ns) + "/vars.yaml"@);
        assert(paths@[5]@ =~= collection_folder_path(ns, col) + "/vars.yaml"@);
        assert(paths@[6]@ =~= core_folder_path(ns, col) + "/vars.yaml"@);
    }
    Ok(paths)
}

/// The seed variables of a simple playbook workspace.
pub open spec fn simple_vars_content() -> Seq<char> {
    "#!chgops\nself: demo-playbook\n"@
}

/// The definition of a simple playbook.
pub open spec fn simple_playbook_content() -> Seq<char> {
    "#!chgops\n# Description: This is a simple playbook.\n---\nname: demo-playbook\n"@
}

/// The seed variables of the default playbook template.
pub open spec fn default_vars_content() -> Seq<char> {
    "#!chgops\nself: \n    name: demo-playbook    \n    description: \"This is a simple playbook\"\n"@
}

/// The definition of the default playbook template.
pub open spec fn default_playbook_content() -> Seq<char> {
    "#!chgops\n# Description: This is a simple playbook.\n---\nname: playbook\nsettings:\n    name: demo-playbook\n    description: \"This is a simple playbook\"\ntasks:\n  - dx.core.print:\n      command: \"info\"\n      vars:\n        resource: \"{{ self | as_json }}\"\n      name: \"Information\"\n      register: info1\n"@
}

/// Plans the initialization of a playbook workspace: the playbooks tree,
/// the named playbook's folder and vars folder, a seed variables file and
/// a seed playbook definition (the `default` template carries a starter
/// task).
pub fn action_init(playbook_name: &str, template_name: &str, force_update: bool) -> (r:
    ScaffoldPlan)
    ensures
        r.force_update == force_update,
        r.folders@.len() == 3,
        r.folders@[0]@ == "./playbooks"@,
        r.folders@[1]@ == "./playbooks/"@ + playbook_name@,
        r.folders@[2]@ == "./playbooks/"@ + playbook_name@ + "/vars"@,
        r.files@.len() == 2,
        r.files@[0].path@ == "./playbooks/"@ + playbook_name@ + "/vars/vars.yaml"@,
        r.files@[1].path@ == "./playbooks/"@ + playbook_name@ + "/playbook.yaml"@,
        template_name@ == "default"@ ==> r.files@[0].content@ == default_vars_content()
            && r.files@[1].content@ == default_playbook_content(),
        template_name@ != "default"@ ==> r.files@[0].content@ == simple_vars_content()
            && r.files@[1].content@ == simple_playbook_content(),
{
    let mut pb_folder = String::from_str("./playbooks/");
    pb_folder.append(playbook_name);
    let mut vars_folder = pb_folder.clone();
    vars_folder.append("/vars");
    let mut vars_file = pb_folder.clone();
    vars_file.append("/vars/vars.yaml");
    let mut pb_file = pb_folder.clone();
    pb_file.append("/playbook.yaml");
    let mut folders: Vec<String> = Vec::new();
    folders.push(String::from_str("./playbooks"));
    folders.push(pb_folder);
    folders.push(vars_folder);
    let default_name = String::from_str("default");
    let tpl = String::from_str(template_name);
    let is_default = tpl == default_name;
    let c1 = if is_default {
        String::from_str(
            "#!chgops\nself: \n    name: demo-playbook    \n    description: \"This is a simple playbook\"\n",
        )
    } else {
        String::from_str("#!chgops\nself: demo-playbook\n")
    };
    let c2 = if is_default {
        String::from_str(
            "#!chgops\n# Description: This is a simple playbook.\n---\nname: playbook\nsettings:\n    name: demo-playbook\n    description: \"This is a simple playbook\"\ntasks:\n  - dx.core.print:\n      command: \"info\"\n      vars:\n        resource: \"{{ self | as_json }}\"\n      name: \"Information\"\n      register: info1\n",
        )
    } else {
        String::from_str(
            "#!chgops\n# Description: This is a simple playbook.\n---\nname: demo-playbook\n",
        )
    };
    let mut files: Vec<ScaffoldFile> = Vec::new();
    files.push(ScaffoldFile { path: vars_file, content: c1 });
    files.push(ScaffoldFile { path: pb_file, content: c2 });
    let r = ScaffoldPlan { folders, files, force_update };
    proof {
        assert(r.folders@[1]@ =~= "./playbooks/"@ + playbook_name@);
        assert(r.folders@[2]@ =~= "./playbooks/"@ + playbook_name@ + "/vars"@);
        assert(r.files@[0].path@ =~= "./playbooks/"@ + playbook_name@ + "/vars/vars.yaml"@);
        assert(r.files@[1].path@ =~= "./playbooks/"@ + playbook_name@ + "/playbook.yaml"@);
    }
    r
}

} // verus!
