use vstd::prelude::*;

use crate::text::{chars_of, pieces, same_chars, split_pieces, string_of, views, Delim};

verus! {

/// The environment values that decide where descriptor files are searched.
/// Each is `None` when unset.
pub struct SearchConfig {
    /// The user data-home override.
    pub data_home: Option<String>,
    /// The colon-separated system data directories.
    pub data_dirs: Option<String>,
    /// The home directory.
    pub home: Option<String>,
    /// The user name.
    pub user: Option<String>,
    /// The whitespace-separated alternate package-manager profiles.
    pub profiles: Option<String>,
}

pub open spec fn opt_string(o: Option<String>) -> Option<Seq<char>> {
    match o {
        Some(s) => Some(s@),
        None => None,
    }
}

/// `rel` appended to `base` as a path component, as `Path::join` does for a
/// relative `rel`.
pub open spec fn join(base: Seq<char>, rel: Seq<char>) -> Seq<char> {
    if base.len() == 0 {
        rel
    } else if base.last() == '/' {
        base + rel
    } else {
        base + seq!['/'] + rel
    }
}

/// The user data directory: the override when set and non-empty, else
/// `.local/share` under the home directory.
pub open spec fn data_home_of(data_home: Option<Seq<char>>, home: Option<Seq<char>>) -> Option<
    Seq<char>,
> {
    match data_home {
        Some(d) if d.len() > 0 => Some(d),
        _ => match home {
            Some(h) => Some(join(h, ".local/share"@)),
            None => None,
        },
    }
}

pub open spec fn joined_each(bases: Seq<Seq<char>>, rel: Seq<char>) -> Seq<Seq<char>> {
    bases.map_values(|b: Seq<char>| join(b, rel))
}

/// The user-scope directories.
pub open spec fn user_dirs(data_home: Option<Seq<char>>, home: Option<Seq<char>>) -> Seq<
    Seq<char>,
> {
    match data_home_of(data_home, home) {
        Some(h) => seq![join(h, "applications"@), join(h, "flatpak/exports/share/applications"@)],
        None => seq![],
    }
}

/// The listed system data directories, or the two fixed fallbacks when none
/// is listed.
pub open spec fn system_dirs(data_dirs: Option<Seq<char>>) -> Seq<Seq<char>> {
    let listed = match data_dirs {
        Some(d) => joined_each(pieces(d, Delim::Char(':')), "applications"@),
        None => seq![],
    };
    if listed.len() > 0 {
        listed
    } else {
        seq!["/usr/local/share/applications"@, "/usr/share/applications"@]
    }
}

/// The fixed system export and profile directories.
pub open spec fn fixed_dirs() -> Seq<Seq<char>> {
    seq![
        "/var/lib/flatpak/exports/share/applications"@,
        "/run/current-system/sw/share/applications"@,
        "/nix/var/nix/profiles/default/share/applications"@,
    ]
}

/// The profile directories of the home directory, the user and the listed
/// profiles.
pub open spec fn profile_dirs(
    home: Option<Seq<char>>,
    user: Option<Seq<char>>,
    profiles: Option<Seq<char>>,
) -> Seq<Seq<char>> {
    let home_profile = match home {
        Some(h) => seq![join(h, ".nix-profile/share/applications"@)],
        None => seq![],
    };
    let user_profile = match user {
        Some(u) if u.len() > 0 => seq!["/etc/profiles/per-user/"@ + u + "/share/applications"@],
        _ => seq![],
    };
    let more = match profiles {
        Some(p) => joined_each(pieces(p, Delim::Space), "share/applications"@),
        None => seq![],
    };
    home_profile + user_profile + more
}

/// The directories to search, before duplicates are dropped.
pub open spec fn search_candidates(
    data_home: Option<Seq<char>>,
    data_dirs: Option<Seq<char>>,
    home: Option<Seq<char>>,
    user: Option<Seq<char>>,
    profiles: Option<Seq<char>>,
) -> Seq<Seq<char>> {
    user_dirs(data_home, home) + system_dirs(data_dirs) + fixed_dirs() + profile_dirs(
        home,
        user,
        profiles,
    )
}

/// `s` with each later repeat of an element dropped.
pub open spec fn dedup(s: Seq<Seq<char>>) -> Seq<Seq<char>>
    decreases s.len(),
{
    if s.len() == 0 {
        seq![]
    } else {
        let d = dedup(s.drop_last());
        if d.contains(s.last()) {
            d
        } else {
            d.push(s.last())
        }
    }
}

pub open spec fn string_seq(v: Seq<String>) -> Seq<Seq<char>> {
    v.map_values(|s: String| s@)
}

/// Appends `path` unless it is already listed.
pub fn push_unique(dirs: &mut Vec<String>, path: String)
    ensures
        string_seq(final(dirs)@) == if string_seq(old(dirs)@).contains(path@) {
            string_seq(old(dirs)@)
        } else {
            string_seq(old(dirs)@).push(path@)
        },
{
    let p = chars_of(path.as_str());
    let mut i: usize = 0;
    while i < dirs.len()
        invariant
            i <= dirs.len(),
            p@ == path@,
            forall|k: int| 0 <= k < i ==> dirs@[k]@ != path@,
        decreases dirs.len() - i,
    {
        if same_chars(&chars_of(dirs[i].as_str()), &p) {
            assert(string_seq(dirs@)[i as int] == path@);
            return;
        }
        i = i + 1;
    }
    let ghost before = dirs@;
    dirs.push(path);
    assert(string_seq(dirs@) =~= string_seq(before).push(path@));
}

fn join_chars(base: &Vec<char>, rel: &str) -> (r: Vec<char>)
    ensures
        r@ == join(base@, rel@),
{
    let r = chars_of(rel);
    if base.len() == 0 {
        return r;
    }
    let mut out = base.clone();
    if base[base.len() - 1] != '/' {
        out.push('/');
    }
    let mut i: usize = 0;
    let ghost start = out@;
    while i < r.len()
        invariant
            i <= r.len(),
            out@ == start + r@.take(i as int),
        decreases r.len() - i,
    {
        out.push(r[i]);
        assert(r@.take(i + 1) =~= r@.take(i as int).push(r@[i as int]));
        i = i + 1;
    }
    assert(r@.take(i as int) =~= r@);
    assert(out@ =~= join(base@, rel@));
    out
}

fn opt_chars(o: &Option<String>) -> (r: Option<Vec<char>>)
    ensures
        match r {
            Some(v) => opt_string(*o) == Some(v@),
            None => opt_string(*o) is None,
        },
{
    match o {
        Some(s) => Some(chars_of(s.as_str())),
        None => None,
    }
}

fn append_all(out: &mut Vec<Vec<char>>, more: Vec<Vec<char>>)
    ensures
        views(final(out)@) == views(old(out)@) + views(more@),
{
    let ghost start = views(out@);
    let mut i: usize = 0;
    while i < more.len()
        invariant
            i <= more.len(),
            views(out@) == start + views(more@).take(i as int),
        decreases more.len() - i,
    {
        let ghost before = out@;
        out.push(more[i].clone());
        assert(views(out@) =~= views(before).push(more@[i as int]@));
        assert(start + views(more@).take(i + 1) =~= (start + views(more@).take(i as int)).push(
            more@[i as int]@,
        ));
        i = i + 1;
    }
    assert(views(more@).take(i as int) =~= views(more@));
}

fn joined_each_chars(bases: &Vec<Vec<char>>, rel: &str) -> (r: Vec<Vec<char>>)
    ensures
        views(r@) == joined_each(views(bases@), rel@),
{
    let mut r: Vec<Vec<char>> = Vec::new();
    let mut i: usize = 0;
    while i < bases.len()
        invariant
            i <= bases.len(),
            r@.len() == i,
            forall|k: int| 0 <= k < i ==> (#[trigger] r@[k])@ == join(bases@[k]@, rel@),
        decreases bases.len() - i,
    {
        r.push(join_chars(&bases[i], rel));
        i = i + 1;
    }
    assert(views(r@) =~= joined_each(views(bases@), rel@));
    r
}

fn one(a: Vec<char>) -> (r: Vec<Vec<char>>)
    ensures
        views(r@) == seq![a@],
{
    let mut r: Vec<Vec<char>> = Vec::new();
    r.push(a);
    assert(views(r@) =~= seq![a@]);
    r
}

fn user_dirs_exec(cfg: &SearchConfig) -> (r: Vec<Vec<char>>)
    ensures
        views(r@) == user_dirs(opt_string(cfg.data_home), opt_string(cfg.home)),
{
    let data_home = match opt_chars(&cfg.data_home) {
        Some(d) if d.len() > 0 => Some(d),
        _ => match opt_chars(&cfg.home) {
            Some(h) => Some(join_chars(&h, ".local/share")),
            None => None,
        },
    };
    let mut all: Vec<Vec<char>> = Vec::new();
    match &data_home {
        Some(h) => {
            all.push(join_chars(h, "applications"));
            all.push(join_chars(h, "flatpak/exports/share/applications"));
        },
        None => {},
    }
    assert(views(all@) =~= user_dirs(opt_string(cfg.data_home), opt_string(cfg.home)));
    all
}

fn system_dirs_exec(cfg: &SearchConfig) -> (r: Vec<Vec<char>>)
    ensures
        views(r@) == system_dirs(opt_string(cfg.data_dirs)),
{
    let mut listed = match opt_chars(&cfg.data_dirs) {
        Some(d) => joined_each_chars(&split_pieces(&d, &Delim::Char(':')), "applications"),
        None => {
            let v: Vec<Vec<char>> = Vec::new();
            assert(views(v@) =~= seq![]);
            v
        },
    };
    if listed.len() == 0 {
        listed.push(chars_of("/usr/local/share/applications"));
        listed.push(chars_of("/usr/share/applications"));
        assert(views(listed@) =~= seq![
            "/usr/local/share/applications"@,
            "/usr/share/applications"@,
        ]);
    }
    listed
}

fn fixed_dirs_exec() -> (r: Vec<Vec<char>>)
    ensures
        views(r@) == fixed_dirs(),
{
    let mut all: Vec<Vec<char>> = Vec::new();
    all.push(chars_of("/var/lib/flatpak/exports/share/applications"));
    all.push(chars_of("/run/current-system/sw/share/applications"));
    all.push(chars_of("/nix/var/nix/profiles/default/share/applications"));
    assert(views(all@) =~= fixed_dirs());
    all
}

/// `a` followed by `b`.
fn concat_chars(a: &Vec<char>, b: &Vec<char>) -> (r: Vec<char>)
    ensures
        r@ == a@ + b@,
{
    let mut p = a.clone();
    let mut i: usize = 0;
    while i < b.len()
        invariant
            i <= b.len(),
            p@ == a@ + b@.take(i as int),
        decreases b.len() - i,
    {
        p.push(b[i]);
        assert(b@.take(i + 1) =~= b@.take(i as int).push(b@[i as int]));
        i = i + 1;
    }
    assert(b@.take(i as int) =~= b@);
    p
}

fn profile_dirs_exec(cfg: &SearchConfig) -> (r: Vec<Vec<char>>)
    ensures
        views(r@) == profile_dirs(
            opt_string(cfg.home),
            opt_string(cfg.user),
            opt_string(cfg.profiles),
        ),
{
    let mut all: Vec<Vec<char>> = Vec::new();
    assert(views(all@) =~= seq![]);
    match opt_chars(&cfg.home) {
        Some(h) => append_all(&mut all, one(join_chars(&h, ".nix-profile/share/applications"))),
        None => {},
    }
    match opt_chars(&cfg.user) {
        Some(u) => if u.len() > 0 {
            let p = concat_chars(&chars_of("/etc/profiles/per-user/"), &u);
            append_all(&mut all, one(concat_chars(&p, &chars_of("/share/applications"))));
        },
        None => {},
    }
    match opt_chars(&cfg.profiles) {
        Some(p) => append_all(
            &mut all,
            joined_each_chars(&split_pieces(&p, &Delim::Space), "share/applications"),
        ),
        None => {},
    }
    all
}

fn search_candidates_exec(cfg: &SearchConfig) -> (r: Vec<Vec<char>>)
    ensures
        views(r@) == search_candidates(
            opt_string(cfg.data_home),
            opt_string(cfg.data_dirs),
            opt_string(cfg.home),
            opt_string(cfg.user),
            opt_string(cfg.profiles),
        ),
{
    let mut all = user_dirs_exec(cfg);
    append_all(&mut all, system_dirs_exec(cfg));
    append_all(&mut all, fixed_dirs_exec());
    append_all(&mut all, profile_dirs_exec(cfg));
    all
}

/// The ordered, duplicate-free list of directories to search for descriptor
/// files, user directories first.
pub fn desktop_dirs(cfg: &SearchConfig) -> (r: Vec<String>)
    ensures
        string_seq(r@) == dedup(
            search_candidates(
                opt_string(cfg.data_home),
                opt_string(cfg.data_dirs),
                opt_string(cfg.home),
                opt_string(cfg.user),
                opt_string(cfg.profiles),
            ),
        ),
{
    let all = search_candidates_exec(cfg);
    let mut dirs: Vec<String> = Vec::new();
    let mut i: usize = 0;
    assert(string_seq(dirs@) =~= dedup(views(all@).take(0)));
    while i < all.len()
        invariant
            i <= all.len(),
            string_seq(dirs@) == dedup(views(all@).take(i as int)),
        decreases all.len() - i,
    {
        assert(views(all@).take(i + 1).drop_last() =~= views(all@).take(i as int));
        push_unique(&mut dirs, string_of(&all[i]));
        i = i + 1;
    }
    assert(views(all@).take(i as int) =~= views(all@));
    dirs
}

} // verus!
