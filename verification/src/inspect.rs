//! What repository inspection decides about files, manifests and workspace
//! configuration: which files matter, how dependencies are specified, which
//! directories are workspace packages and which integrations mention a
//! package manager.
use vstd::prelude::*;
use crate::json::{
    array_items, as_array, as_object, get, get_in, get_member, json_view, object_members,
    opt_view, string_value, Json, JsonValue,
};
use crate::lock_graph::lockfile::json_strings;
use crate::model::{ascii_lower, ascii_lowercase, ascii_lowercase_exec, DependencyProtocol, IntegrationKind};
use crate::runtime::lex::{lemma_match_positions_bounds, match_positions, match_positions_exec};
use crate::text::{
    chars_of, contains_exec, contains_seq, ends_with, find_char, lines, lines_exec, matches_at,
    slice_of, starts_with, str_contains, str_ends_with, str_eq, str_starts_with, strs, texts,
    trim, trimmed,
};

verus! {

/// Configuration files whose content decides a migration.
pub open spec fn relevant_basename(p: Seq<char>) -> bool {
    ||| p == ".npmrc"@ || p == ".pnpmfile.cjs"@ || p == ".pnp.cjs"@ || p == ".pnp.loader.mjs"@
    ||| p == ".yarnrc"@ || p == ".yarnrc.yml"@ || p == "bunfig.toml"@ || p == "deno.json"@
    ||| p == "deno.jsonc"@ || p == "deno.lock"@ || p == "npm-shrinkwrap.json"@ || p == "package-lock.json"@
    ||| p == "pnpm-lock.yaml"@ || p == "pnpm-workspace.yaml"@ || p == "vlt-lock.json"@ || p == "vlt.json"@
    ||| p == "yarn.config.cjs"@ || p == "yarn.lock"@ || p == "bun.lock"@ || p == "bun.lockb"@
}

/// A file that goes into the repository fingerprint: a manifest, a Yarn
/// patch, or a package-manager configuration or lock file at the root.
pub open spec fn is_relevant_spec(path: Seq<char>) -> bool {
    ||| path == "package.json"@
    ||| ends_with(path, "/package.json"@)
    ||| starts_with(path, ".yarn/patches/"@) && ends_with(path, ".patch"@)
    ||| relevant_basename(path)
}

pub fn is_relevant(path: &str) -> (r: bool)
    ensures
        r == is_relevant_spec(path@),
{
    let p = chars_of(path);
    str_eq(&p, "package.json") || str_ends_with(&p, "/package.json") || (str_starts_with(&p, ".yarn/patches/")
        && str_ends_with(&p, ".patch")) || str_eq(&p, ".npmrc") || str_eq(&p, ".pnpmfile.cjs") || str_eq(
        &p,
        ".pnp.cjs",
    ) || str_eq(&p, ".pnp.loader.mjs") || str_eq(&p, ".yarnrc") || str_eq(&p, ".yarnrc.yml") || str_eq(
        &p,
        "bunfig.toml",
    ) || str_eq(&p, "deno.json") || str_eq(&p, "deno.jsonc") || str_eq(&p, "deno.lock") || str_eq(
        &p,
        "npm-shrinkwrap.json",
    ) || str_eq(&p, "package-lock.json") || str_eq(&p, "pnpm-lock.yaml") || str_eq(&p, "pnpm-workspace.yaml")
        || str_eq(&p, "vlt-lock.json") || str_eq(&p, "vlt.json") || str_eq(&p, "yarn.config.cjs") || str_eq(
        &p,
        "yarn.lock",
    ) || str_eq(&p, "bun.lock") || str_eq(&p, "bun.lockb")
}

/// The kind of an integration file: CI workflow, container build,
/// documentation, or other automation.
pub open spec fn integration_kind_spec(path: Seq<char>) -> IntegrationKind {
    let lower = ascii_lowercase(path);
    if starts_with(path, ".github/workflows/"@) || path == ".gitlab-ci.yml"@ || path == "azure-pipelines.yml"@ {
        IntegrationKind::Ci
    } else if contains_seq(lower, "docker"@) || path == "Containerfile"@ {
        IntegrationKind::Container
    } else if starts_with(lower, "readme"@) {
        IntegrationKind::Documentation
    } else {
        IntegrationKind::Automation
    }
}

pub fn integration_kind(path: &str) -> (r: IntegrationKind)
    ensures
        r == integration_kind_spec(path@),
{
    let p = chars_of(path);
    let lower = ascii_lowercase_exec(&p);
    if str_starts_with(&p, ".github/workflows/") || str_eq(&p, ".gitlab-ci.yml") || str_eq(&p, "azure-pipelines.yml") {
        IntegrationKind::Ci
    } else if str_contains(&lower, "docker") || str_eq(&p, "Containerfile") {
        IntegrationKind::Container
    } else if str_starts_with(&lower, "readme") {
        IntegrationKind::Documentation
    } else {
        IntegrationKind::Automation
    }
}

/// The last segment of a `/`-separated path.
pub open spec fn base_name(path: Seq<char>) -> Seq<char> {
    match crate::text::rfind_char(path, '/') {
        Some(i) => path.skip(i + 1),
        None => path,
    }
}

/// A file whose mentions of package managers matter for a migration.
pub open spec fn is_integration_file_spec(path: Seq<char>) -> bool {
    ||| starts_with(path, ".github/workflows/"@) && (ends_with(path, ".yml"@) || ends_with(path, ".yaml"@))
    ||| path == ".gitlab-ci.yml"@ || path == "azure-pipelines.yml"@ || path == "Jenkinsfile"@
    ||| path == "Containerfile"@ || path == "Dockerfile"@ || path == "docker-compose.yml"@
    ||| path == "docker-compose.yaml"@ || path == "README.md"@ || path == "readme.md"@
    ||| starts_with(base_name(path), "Dockerfile."@)
}

pub fn is_integration_file(path: &str) -> (r: bool)
    ensures
        r == is_integration_file_spec(path@),
{
    let p = chars_of(path);
    let base = match crate::text::rfind_char_exec(&p, '/') {
        Some(i) => {
            proof {
                crate::text::lemma_rfind_char_bounds(p@, '/');
            }
            slice_of(&p, i + 1, p.len())
        },
        None => slice_of(&p, 0, p.len()),
    };
    assert(p@.subrange(0, p@.len() as int) =~= p@);
    (str_starts_with(&p, ".github/workflows/") && (str_ends_with(&p, ".yml") || str_ends_with(&p, ".yaml")))
        || str_eq(&p, ".gitlab-ci.yml") || str_eq(&p, "azure-pipelines.yml") || str_eq(&p, "Jenkinsfile")
        || str_eq(&p, "Containerfile") || str_eq(&p, "Dockerfile") || str_eq(&p, "docker-compose.yml")
        || str_eq(&p, "docker-compose.yaml") || str_eq(&p, "README.md") || str_eq(&p, "readme.md")
        || str_starts_with(&base, "Dockerfile.")
}

/// A character that continues a word.
pub open spec fn word_char(c: char) -> bool {
    ('a' <= c <= 'z') || ('A' <= c <= 'Z') || ('0' <= c <= '9') || c == '_'
}

/// The occurrence of `token` at `i` stands alone: no word character touches
/// it on either side.
pub open spec fn token_at(content: Seq<char>, token: Seq<char>, i: int) -> bool {
    &&& i == 0 || !word_char(content[i - 1])
    &&& i + token.len() >= content.len() || !word_char(content[i + token.len()])
}

/// Whether one of the left-to-right occurrences of `token` stands alone.
pub open spec fn contains_token_spec(content: Seq<char>, token: Seq<char>) -> bool {
    let ps = match_positions(content, token, 0);
    exists|k: int| 0 <= k < ps.len() && token_at(content, token, #[trigger] ps[k])
}

fn is_word_char(c: char) -> (r: bool)
    ensures
        r == word_char(c),
{
    ('a' <= c && c <= 'z') || ('A' <= c && c <= 'Z') || ('0' <= c && c <= '9') || c == '_'
}

pub fn contains_token(content: &[char], token: &[char]) -> (r: bool)
    ensures
        r == contains_token_spec(content@, token@),
{
    let ps = match_positions_exec(content, token);
    let ghost pv = match_positions(content@, token@, 0);
    proof {
        lemma_match_positions_bounds(content@, token@, 0);
    }
    let mut k: usize = 0;
    while k < ps.len()
        invariant
            k <= ps.len(),
            ps@.map_values(|x: usize| x as int) == pv,
            pv == match_positions(content@, token@, 0),
            forall|j: int| 0 <= j < pv.len() ==> 0 <= #[trigger] pv[j] <= content@.len(),
            forall|j: int| 0 <= j < k ==> !token_at(content@, token@, #[trigger] pv[j]),
        decreases ps.len() - k,
    {
        let i = ps[k];
        assert(pv[k as int] == i as int);
        let before_ok = i == 0 || !is_word_char(content[i - 1]);
        let after_ok = i >= content.len() || token.len() >= content.len() - i || !is_word_char(content[i + token.len()]);
        if before_ok && after_ok {
            assert(token_at(content@, token@, pv[k as int]));
            return true;
        }
        k = k + 1;
    }
    false
}

/// The package managers named in a file: each of `npm`, `pnpm`, `yarn`,
/// `bun`, `vlt`, `deno` that occurs as a word of the lower-cased text.
pub open spec fn manager_tokens_spec(content: Seq<char>) -> Seq<Seq<char>> {
    let lower = ascii_lowercase(content);
    seq!["npm"@, "pnpm"@, "yarn"@, "bun"@, "vlt"@, "deno"@].filter(|t: Seq<char>| contains_token_spec(lower, t))
}

pub fn manager_tokens(content: &str) -> (r: Vec<String>)
    ensures
        strs(r@) == manager_tokens_spec(content@),
{
    let cs = chars_of(content);
    let lower = ascii_lowercase_exec(&cs);
    let ghost all = seq!["npm"@, "pnpm"@, "yarn"@, "bun"@, "vlt"@, "deno"@];
    let ghost pred = |t: Seq<char>| contains_token_spec(lower@, t);
    let names: [&str; 6] = ["npm", "pnpm", "yarn", "bun", "vlt", "deno"];
    let mut r: Vec<String> = Vec::new();
    let mut i: usize = 0;
    while i < 6
        invariant
            i <= 6,
            names@.map_values(|s: &str| s@) == all,
            all == seq!["npm"@, "pnpm"@, "yarn"@, "bun"@, "vlt"@, "deno"@],
            pred == (|t: Seq<char>| contains_token_spec(lower@, t)),
            strs(r@) == all.take(i as int).filter(pred),
        decreases 6 - i,
    {
        let t = chars_of(names[i]);
        assert(t@ == all[i as int]);
        proof {
            assert(all.take(i + 1).drop_last() =~= all.take(i as int));
            reveal_with_fuel(Seq::filter, 1);
        }
        let ghost before = r@;
        if contains_token(&lower, &t) {
            r.push(names[i].to_owned());
            assert(strs(r@) =~= strs(before).push(all[i as int]));
        }
        i = i + 1;
    }
    assert(all.take(6) =~= all);
    r
}

/// The `- item` entries under the top-level key `section` of a simple YAML
/// list, unquoted.
pub open spec fn yaml_list_from(ls: Seq<Seq<char>>, section: Seq<char>) -> (Seq<Seq<char>>, bool)
    decreases ls.len(),
{
    if ls.len() == 0 {
        (seq![], false)
    } else {
        let (values, active) = yaml_list_from(ls.drop_last(), section);
        let line = ls.last();
        let t = trim(line);
        let indented = line.len() > 0 && crate::text::is_ws(line[0]);
        if !indented && ends_with(t, ":"@) {
            (values, crate::lock_graph::extraction::strip_end_while(t, |c: char| c == ':') == section)
        } else if active {
            match crate::text::strip_prefix(t, "- "@) {
                Some(v) => (values.push(crate::lock_graph::extraction::trim_quotes(trim(v))), true),
                None => if t.len() > 0 && !indented {
                    (values, false)
                } else {
                    (values, true)
                },
            }
        } else {
            (values, false)
        }
    }
}

pub open spec fn parse_yaml_list_spec(content: Seq<char>, section: Seq<char>) -> Seq<Seq<char>> {
    yaml_list_from(lines(content), section).0
}

pub fn parse_yaml_list(content: &str, section: &str) -> (r: Vec<String>)
    ensures
        strs(r@) == parse_yaml_list_spec(content@, section@),
{
    let cs = chars_of(content);
    let ls = lines_exec(&cs);
    let ghost lv = texts(ls@);
    let sec = chars_of(section);
    let mut values: Vec<Vec<char>> = Vec::new();
    let mut active = false;
    let mut k: usize = 0;
    while k < ls.len()
        invariant
            k <= ls.len(),
            lv == texts(ls@),
            sec@ == section@,
            (texts(values@), active) == yaml_list_from(lv.take(k as int), section@),
        decreases ls.len() - k,
    {
        assert(lv.take(k + 1).drop_last() =~= lv.take(k as int));
        assert(lv.take(k + 1).last() == ls@[k as int]@);
        let line = &ls[k];
        let t = trimmed(line);
        let indented = line.len() > 0 && crate::text::is_ws_exec(line[0]);
        if !indented && str_ends_with(&t, ":") {
            let mut e = t.len();
            assert(t@.take(t.len() as int) =~= t@);
            while e > 0 && t[e - 1] == ':'
                invariant
                    e <= t.len(),
                    crate::lock_graph::extraction::strip_end_while(t@, |c: char| c == ':')
                        == crate::lock_graph::extraction::strip_end_while(t@.take(e as int), |c: char| c == ':'),
                decreases e,
            {
                assert(t@.take(e as int).drop_last() =~= t@.take(e - 1));
                e = e - 1;
            }
            let key = slice_of(&t, 0, e);
            assert(key@ =~= t@.take(e as int));
            active = crate::text::chars_eq(&key, &sec);
        } else if active {
            proof {
                reveal_strlit("- ");
            }
            if str_starts_with(&t, "- ") {
                let rest = slice_of(&t, 2, t.len());
                let v = trimmed(&rest);
                let unq = crate::lock_graph::extraction::trim_quotes_exec(&v);
                let ghost before = values@;
                values.push(unq);
                proof {
                    crate::text::lemma_texts_push(before, unq);
                }
            } else if t.len() > 0 && !indented {
                active = false;
            }
        }
        k = k + 1;
    }
    assert(lv.take(ls.len() as int) =~= lv);
    crate::text::strings_of(&values)
}

/// The workspace patterns a manifest declares: its `workspaces` array, or
/// the `packages` array of its `workspaces` object; the strings in order.
pub open spec fn workspace_patterns_spec(manifest: Option<Json>) -> Seq<Seq<char>> {
    match get_in(manifest, "workspaces"@) {
        None => seq![],
        Some(w) => match w {
            Json::Array(items) => json_strings(items),
            _ => match as_array(get(w, "packages"@)) {
                Some(items) => json_strings(items),
                None => seq![],
            },
        },
    }
}

fn strings_in(items: &Vec<JsonValue>) -> (r: Vec<String>)
    ensures
        strs(r@) == json_strings(items@.map_values(|x: JsonValue| json_view(x))),
{
    let ghost iv = items@.map_values(|x: JsonValue| json_view(x));
    let mut r: Vec<String> = Vec::new();
    let mut k: usize = 0;
    while k < items.len()
        invariant
            k <= items.len(),
            iv == items@.map_values(|x: JsonValue| json_view(x)),
            strs(r@) == json_strings(iv.take(k as int)),
        decreases items.len() - k,
    {
        assert(iv.take(k + 1).drop_last() =~= iv.take(k as int));
        assert(iv.take(k + 1).last() == json_view(items@[k as int]));
        let ghost before = r@;
        match &items[k] {
            JsonValue::Str(s) => {
                let x = s.as_str().to_owned();
                r.push(x);
                assert(strs(r@) =~= strs(before).push(x@));
            },
            _ => {},
        }
        assert(strs(r@) =~= json_strings(iv.take(k + 1)));
        k = k + 1;
    }
    assert(iv.take(items.len() as int) =~= iv);
    r
}

pub fn workspace_patterns(manifest: Option<&JsonValue>) -> (r: Vec<String>)
    ensures
        strs(r@) == workspace_patterns_spec(opt_view(manifest)),
{
    let w = match manifest {
        Some(m) => get_member(m, "workspaces"),
        None => None,
    };
    match w {
        None => {
            let r: Vec<String> = Vec::new();
            assert(strs(r@) =~= Seq::<Seq<char>>::empty());
            r
        },
        Some(wv) => match array_items(Some(wv)) {
            Some(items) => strings_in(items),
            None => match array_items(get_member(wv, "packages")) {
                Some(items) => strings_in(items),
                None => {
                    let r: Vec<String> = Vec::new();
                    assert(strs(r@) =~= Seq::<Seq<char>>::empty());
                    r
                },
            },
        },
    }
}

/// `s` with every leading copy of `p` removed (`str::trim_start_matches`).
pub open spec fn strip_prefix_all(s: Seq<char>, p: Seq<char>) -> Seq<char>
    decreases s.len(),
{
    if p.len() > 0 && starts_with(s, p) {
        strip_prefix_all(s.skip(p.len() as int), p)
    } else {
        s
    }
}

/// `s` with every trailing copy of `p` removed (`str::trim_end_matches`).
pub open spec fn strip_suffix_all(s: Seq<char>, p: Seq<char>) -> Seq<char>
    decreases s.len(),
{
    if p.len() > 0 && ends_with(s, p) {
        strip_suffix_all(s.take(s.len() - p.len()), p)
    } else {
        s
    }
}

/// A workspace path or pattern without leading `./` and surrounding `/`.
pub open spec fn normalize_workspace_path(s: Seq<char>) -> Seq<char> {
    crate::lock_graph::extraction::strip_end_while(
        crate::lock_graph::extraction::strip_start_while(strip_prefix_all(s, "./"@), |c: char| c == '/'),
        |c: char| c == '/',
    )
}

/// Whether the directory `path` is matched by a workspace pattern: `dir/**`
/// matches the directory and everything under it, `dir/*` its direct
/// children, and a pattern without `*` itself.
pub open spec fn workspace_match_spec(path: Seq<char>, pattern: Seq<char>) -> bool {
    let p = normalize_workspace_path(path);
    let q = normalize_workspace_path(pattern);
    if ends_with(q, "/**"@) {
        let prefix = q.take(q.len() - 3);
        p == prefix || starts_with(p, prefix + "/"@)
    } else if ends_with(q, "/*"@) {
        let prefix = q.take(q.len() - 2);
        match crate::text::strip_prefix(p, prefix + "/"@) {
            Some(rem) => rem.len() > 0 && find_char(rem, '/') is None,
            None => false,
        }
    } else if find_char(q, '*') is None {
        p == q
    } else {
        false
    }
}

fn strip_prefix_all_exec(s: &[char], p: &str) -> (r: Vec<char>)
    ensures
        r@ == strip_prefix_all(s@, p@),
{
    let pc = chars_of(p);
    let mut a: usize = 0;
    assert(s@.skip(0) =~= s@);
    while pc.len() > 0 && a <= s.len() && crate::text::matches_at_exec(s, &pc, a)
        invariant
            a <= s.len(),
            pc@ == p@,
            strip_prefix_all(s@, p@) == strip_prefix_all(s@.skip(a as int), p@),
        decreases s.len() - a,
    {
        assert(s@.skip(a as int).subrange(0, pc@.len() as int) =~= s@.subrange(a as int, a + pc@.len()));
        assert(s@.skip(a as int).skip(pc@.len() as int) =~= s@.skip(a + pc@.len()));
        a = a + pc.len();
    }
    proof {
        if pc@.len() > 0 && a <= s.len() {
            assert(s@.skip(a as int).subrange(0, pc@.len() as int) =~= s@.subrange(a as int, a + pc@.len()) || a
                + pc@.len() > s.len());
        }
    }
    slice_of(s, a, s.len())
}

fn trim_slashes(s: &[char]) -> (r: Vec<char>)
    ensures
        r@ == crate::lock_graph::extraction::strip_end_while(
            crate::lock_graph::extraction::strip_start_while(s@, |c: char| c == '/'),
            |c: char| c == '/',
        ),
{
    let mut a: usize = 0;
    assert(s@.skip(0) =~= s@);
    while a < s.len() && s[a] == '/'
        invariant
            a <= s.len(),
            crate::lock_graph::extraction::strip_start_while(s@, |c: char| c == '/')
                == crate::lock_graph::extraction::strip_start_while(s@.skip(a as int), |c: char| c == '/'),
        decreases s.len() - a,
    {
        assert(s@.skip(a as int).drop_first() =~= s@.skip(a + 1));
        a = a + 1;
    }
    let ghost mid = s@.skip(a as int);
    assert(crate::lock_graph::extraction::strip_start_while(mid, |c: char| c == '/') == mid);
    let mut b: usize = s.len();
    assert(mid =~= s@.subrange(a as int, s.len() as int));
    while b > a && s[b - 1] == '/'
        invariant
            a <= b <= s.len(),
            crate::lock_graph::extraction::strip_end_while(mid, |c: char| c == '/')
                == crate::lock_graph::extraction::strip_end_while(s@.subrange(a as int, b as int), |c: char| c == '/'),
        decreases b,
    {
        assert(s@.subrange(a as int, b as int).drop_last() =~= s@.subrange(a as int, b - 1));
        b = b - 1;
    }
    slice_of(s, a, b)
}

fn normalize_workspace_path_exec(s: &str) -> (r: Vec<char>)
    ensures
        r@ == normalize_workspace_path(s@),
{
    let cs = chars_of(s);
    let t = strip_prefix_all_exec(&cs, "./");
    trim_slashes(&t)
}

pub fn workspace_match(path: &str, pattern: &str) -> (r: bool)
    ensures
        r == workspace_match_spec(path@, pattern@),
{
    proof {
        reveal_strlit("/**");
        reveal_strlit("/*");
        reveal_strlit("/");
    }
    let p = normalize_workspace_path_exec(path);
    let q = normalize_workspace_path_exec(pattern);
    if str_ends_with(&q, "/**") {
        let mut prefix = slice_of(&q, 0, q.len() - 3);
        let eq = crate::text::chars_eq(&p, &prefix);
        crate::text::push_str(&mut prefix, "/");
        return eq || crate::text::starts_with_exec(&p, &prefix);
    }
    if str_ends_with(&q, "/*") {
        let mut prefix = slice_of(&q, 0, q.len() - 2);
        crate::text::push_str(&mut prefix, "/");
        if !crate::text::starts_with_exec(&p, &prefix) {
            return false;
        }
        let rem = slice_of(&p, prefix.len(), p.len());
        assert(crate::text::strip_prefix(p@, prefix@) == Some(rem@));
        proof {
            crate::text::lemma_find_char_bounds(rem@, '/');
        }
        return rem.len() > 0 && crate::text::find_char_exec(&rem, '/').is_none();
    }
    proof {
        crate::text::lemma_find_char_bounds(q@, '*');
    }
    if crate::text::find_char_exec(&q, '*').is_none() {
        return crate::text::chars_eq(&p, &q);
    }
    false
}

/// The directory of a nested manifest path.
pub open spec fn manifest_dir(path: Seq<char>) -> Seq<char> {
    strip_suffix_all(path, "/package.json"@)
}

fn manifest_dir_exec(path: &[char]) -> (r: Vec<char>)
    ensures
        r@ == manifest_dir(path@),
{
    proof {
        reveal_strlit("/package.json");
    }
    let mut b: usize = path.len();
    assert(path@.take(path.len() as int) =~= path@);
    let mut more = str_ends_with(path, "/package.json");
    while more
        invariant
            b <= path.len(),
            more == ends_with(path@.take(b as int), "/package.json"@),
            manifest_dir(path@) == strip_suffix_all(path@.take(b as int), "/package.json"@),
        decreases b,
    {
        proof {
            reveal_strlit("/package.json");
        }
        assert(path@.take(b as int).take(b - 13) =~= path@.take(b - 13));
        b = b - 13;
        let t = slice_of(path, 0, b);
        more = str_ends_with(&t, "/package.json");
    }
    slice_of(path, 0, b)
}

/// A workspace pattern that includes.
pub open spec fn positive_pattern(p: Seq<char>) -> bool {
    !starts_with(p, "!"@)
}

/// The directories holding workspace packages: the root, and each directory
/// of a nested manifest that an including pattern matches and no excluding
/// (`!`) pattern matches; increasing, each once.
pub open spec fn package_paths_set(patterns: Seq<Seq<char>>, files: Seq<Seq<char>>) -> Set<Seq<char>> {
    Set::new(
        |d: Seq<char>|
            d == "."@ || exists|f: int|
                0 <= f < files.len() && ends_with(#[trigger] files[f], "/package.json"@) && d == manifest_dir(files[f])
                    && (exists|i: int| 0 <= i < patterns.len() && positive_pattern(#[trigger] patterns[i]) && workspace_match_spec(d, patterns[i]))
                    && !(exists|i: int| 0 <= i < patterns.len() && !positive_pattern(#[trigger] patterns[i]) && workspace_match_spec(d, patterns[i].skip(1))),
    )
}

fn matches_any(dir: &str, patterns: &Vec<String>, positive: bool) -> (r: bool)
    ensures
        r == (if positive {
            exists|i: int| 0 <= i < patterns@.len() && positive_pattern(#[trigger] strs(patterns@)[i]) && workspace_match_spec(dir@, strs(patterns@)[i])
        } else {
            exists|i: int| 0 <= i < patterns@.len() && !positive_pattern(#[trigger] strs(patterns@)[i]) && workspace_match_spec(dir@, strs(patterns@)[i].skip(1))
        }),
{
    let ghost ps = strs(patterns@);
    let mut i: usize = 0;
    while i < patterns.len()
        invariant
            i <= patterns.len(),
            ps == strs(patterns@),
            forall|j: int| 0 <= j < i ==> !(if positive {
                positive_pattern(#[trigger] ps[j]) && workspace_match_spec(dir@, ps[j])
            } else {
                !positive_pattern(ps[j]) && workspace_match_spec(dir@, ps[j].skip(1))
            }),
        decreases patterns.len() - i,
    {
        let pc = chars_of(patterns[i].as_str());
        assert(ps[i as int] == pc@);
        proof {
            reveal_strlit("!");
        }
        let is_positive = !str_starts_with(&pc, "!");
        if positive && is_positive {
            if workspace_match(dir, patterns[i].as_str()) {
                return true;
            }
        } else if !positive && !is_positive {
            let rest = crate::text::string_of(&slice_of(&pc, 1, pc.len()));
            assert(rest@ =~= ps[i as int].skip(1));
            if workspace_match(dir, rest.as_str()) {
                return true;
            }
        }
        i = i + 1;
    }
    false
}

/// The workspace package directories, as `package_paths_set` states.
pub fn package_paths(patterns: &Vec<String>, files: &Vec<String>) -> (r: Vec<String>)
    ensures
        strs(r@) == crate::sorted::sorted_set(package_paths_set(strs(patterns@), strs(files@))),
{
    let ghost ps = strs(patterns@);
    let ghost fs = strs(files@);
    let ghost target = package_paths_set(ps, fs);
    let mut v: Vec<Vec<char>> = Vec::new();
    crate::sorted::insert_sorted(&mut v, chars_of("."));
    let mut i: usize = 0;
    while i < files.len()
        invariant
            i <= files.len(),
            ps == strs(patterns@),
            fs == strs(files@),
            target == package_paths_set(ps, fs),
            crate::text::strictly_sorted(texts(v@)),
            forall|x: Seq<char>| #[trigger] texts(v@).to_set().contains(x) ==> target.contains(x),
            texts(v@).to_set().contains("."@),
            forall|f: int|
                0 <= f < i && ends_with(#[trigger] fs[f], "/package.json"@) && target.contains(manifest_dir(fs[f]))
                    ==> texts(v@).to_set().contains(manifest_dir(fs[f])),
        decreases files.len() - i,
    {
        let f = chars_of(files[i].as_str());
        assert(fs[i as int] == f@);
        if str_ends_with(&f, "/package.json") {
            let d = manifest_dir_exec(&f);
            let ds = crate::text::string_of(&d);
            if matches_any(ds.as_str(), patterns, true) && !matches_any(ds.as_str(), patterns, false) {
                assert(target.contains(d@));
                crate::sorted::insert_sorted(&mut v, d);
            } else {
                assert(!target.contains(d@) || d@ == "."@);
            }
        }
        i = i + 1;
    }
    proof {
        assert forall|x: Seq<char>| target.contains(x) implies #[trigger] texts(v@).to_set().contains(x) by {
            if x != "."@ {
                let f = choose|f: int|
                    0 <= f < fs.len() && ends_with(#[trigger] fs[f], "/package.json"@) && x == manifest_dir(fs[f])
                        && (exists|i: int| 0 <= i < ps.len() && positive_pattern(#[trigger] ps[i]) && workspace_match_spec(x, ps[i]))
                        && !(exists|i: int| 0 <= i < ps.len() && !positive_pattern(#[trigger] ps[i]) && workspace_match_spec(x, ps[i].skip(1)));
            }
        }
        assert(texts(v@).to_set() =~= target);
    }
    crate::sorted::sorted_strings(&v, Ghost(target))
}

/// How a dependency specifier is resolved.
pub open spec fn dependency_protocol_spec(specifier: Seq<char>) -> DependencyProtocol {
    let l = ascii_lowercase(specifier);
    if starts_with(l, "workspace:"@) {
        DependencyProtocol::Workspace
    } else if starts_with(l, "catalog:"@) {
        DependencyProtocol::Catalog
    } else if starts_with(l, "npm:"@) {
        DependencyProtocol::NpmAlias
    } else if starts_with(l, "file:"@) {
        DependencyProtocol::File
    } else if starts_with(l, "link:"@) {
        DependencyProtocol::Link
    } else if starts_with(l, "portal:"@) {
        DependencyProtocol::Portal
    } else if starts_with(l, "patch:"@) {
        DependencyProtocol::Patch
    } else if starts_with(l, "git+"@) || ends_with(l, ".git"@) {
        DependencyProtocol::Git
    } else if starts_with(l, "http://"@) || starts_with(l, "https://"@) {
        DependencyProtocol::Url
    } else if starts_with(l, "jsr:"@) {
        DependencyProtocol::Jsr
    } else if l == "latest"@ || forall|i: int|
        0 <= i < l.len() ==> ({
            let c = #[trigger] l[i];
            ('a' <= c <= 'z') || ('A' <= c <= 'Z') || ('0' <= c <= '9') || c == '-'
        }) {
        DependencyProtocol::Tag
    } else if l.len() > 0 && (('0' <= l[0] <= '9') || l[0] == '^' || l[0] == '~' || l[0] == '<' || l[0] == '>'
        || l[0] == '=' || l[0] == '*') {
        DependencyProtocol::Semver
    } else {
        DependencyProtocol::Unknown
    }
}

pub fn dependency_protocol(specifier: &str) -> (r: DependencyProtocol)
    ensures
        r == dependency_protocol_spec(specifier@),
{
    let cs = chars_of(specifier);
    let l = ascii_lowercase_exec(&cs);
    if str_starts_with(&l, "workspace:") {
        return DependencyProtocol::Workspace;
    }
    if str_starts_with(&l, "catalog:") {
        return DependencyProtocol::Catalog;
    }
    if str_starts_with(&l, "npm:") {
        return DependencyProtocol::NpmAlias;
    }
    if str_starts_with(&l, "file:") {
        return DependencyProtocol::File;
    }
    if str_starts_with(&l, "link:") {
        return DependencyProtocol::Link;
    }
    if str_starts_with(&l, "portal:") {
        return DependencyProtocol::Portal;
    }
    if str_starts_with(&l, "patch:") {
        return DependencyProtocol::Patch;
    }
    if str_starts_with(&l, "git+") || str_ends_with(&l, ".git") {
        return DependencyProtocol::Git;
    }
    if str_starts_with(&l, "http://") || str_starts_with(&l, "https://") {
        return DependencyProtocol::Url;
    }
    if str_starts_with(&l, "jsr:") {
        return DependencyProtocol::Jsr;
    }
    let mut tag = true;
    let mut i: usize = 0;
    while i < l.len()
        invariant
            i <= l.len(),
            tag == forall|j: int|
                0 <= j < i ==> ({
                    let c = #[trigger] l@[j];
                    ('a' <= c <= 'z') || ('A' <= c <= 'Z') || ('0' <= c <= '9') || c == '-'
                }),
        decreases l.len() - i,
    {
        let c = l[i];
        if !(('a' <= c && c <= 'z') || ('A' <= c && c <= 'Z') || ('0' <= c && c <= '9') || c == '-') {
            tag = false;
        }
        i = i + 1;
    }
    if str_eq(&l, "latest") || tag {
        return DependencyProtocol::Tag;
    }
    if l.len() > 0 {
        let c = l[0];
        if ('0' <= c && c <= '9') || c == '^' || c == '~' || c == '<' || c == '>' || c == '=' || c == '*' {
            return DependencyProtocol::Semver;
        }
    }
    DependencyProtocol::Unknown
}

/// The feature a dependency protocol implies.
pub open spec fn feature_for_protocol_spec(p: DependencyProtocol) -> Option<Seq<char>> {
    match p {
        DependencyProtocol::Workspace => Some("dependency.workspace-protocol"@),
        DependencyProtocol::Catalog => Some("dependency.catalog-protocol"@),
        DependencyProtocol::Patch => Some("dependency.patch-protocol"@),
        DependencyProtocol::Portal => Some("dependency.portal-protocol"@),
        DependencyProtocol::Link => Some("dependency.link-protocol"@),
        _ => None,
    }
}

pub fn feature_for_protocol(p: DependencyProtocol) -> (r: Option<&'static str>)
    ensures
        match r {
            Some(s) => feature_for_protocol_spec(p) == Some(s@),
            None => feature_for_protocol_spec(p) is None,
        },
{
    match p {
        DependencyProtocol::Workspace => Some("dependency.workspace-protocol"),
        DependencyProtocol::Catalog => Some("dependency.catalog-protocol"),
        DependencyProtocol::Patch => Some("dependency.patch-protocol"),
        DependencyProtocol::Portal => Some("dependency.portal-protocol"),
        DependencyProtocol::Link => Some("dependency.link-protocol"),
        _ => None,
    }
}

} // verus!
