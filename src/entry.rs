use vstd::prelude::*;

use crate::locale::{bool_value, bool_value_chars, lang_matches, lang_matches_chars};
use crate::text::{
    chars_of, first_index, last_index, last_index_of, lemma_first_index, pieces, same_chars,
    share_any, share_any_chars, slice_of, split_pieces, starts_with, string_of, trim, trim_chars,
    views, Delim,
};

verus! {

/// One accepted application descriptor.
#[derive(Debug)]
pub struct DesktopEntry {
    /// The display name.
    pub name: String,
    /// The raw command line of its `Exec` key; empty when the key is absent.
    pub command: String,
    /// Its category tags in order; `Other` alone when it names none.
    pub categories: Vec<String>,
    /// The file it was read from.
    pub path: String,
}

impl DesktopEntry {
    /// A copy of this record.
    pub fn duplicate(&self) -> (r: DesktopEntry)
        ensures
            r@ == self@,
    {
        let mut categories: Vec<String> = Vec::new();
        let mut i: usize = 0;
        while i < self.categories.len()
            invariant
                i <= self.categories.len(),
                string_views(categories@) == string_views(self.categories@).take(i as int),
            decreases self.categories.len() - i,
        {
            let ghost before = categories@;
            categories.push(self.categories[i].clone());
            assert(string_views(categories@) =~= string_views(before).push(
                self.categories@[i as int]@,
            ));
            assert(string_views(self.categories@).take(i + 1) =~= string_views(
                self.categories@,
            ).take(i as int).push(self.categories@[i as int]@));
            i = i + 1;
        }
        assert(string_views(self.categories@).take(i as int) =~= string_views(self.categories@));
        DesktopEntry {
            name: self.name.clone(),
            command: self.command.clone(),
            categories,
            path: self.path.clone(),
        }
    }
}

/// What a `DesktopEntry` holds, as plain sequences.
pub struct EntryModel {
    pub name: Seq<char>,
    pub command: Seq<char>,
    pub categories: Seq<Seq<char>>,
    pub path: Seq<char>,
}

pub open spec fn string_views(v: Seq<String>) -> Seq<Seq<char>> {
    v.map_values(|s: String| s@)
}

impl View for DesktopEntry {
    type V = EntryModel;

    open spec fn view(&self) -> EntryModel {
        EntryModel {
            name: self.name@,
            command: self.command@,
            categories: string_views(self.categories@),
            path: self.path@,
        }
    }
}

/// What the scan of a descriptor has gathered after some of its lines.
pub struct ScanState {
    /// Inside the `[Desktop Entry]` section.
    pub in_entry: bool,
    /// A later section header ended the primary section: no more lines are read.
    pub stopped: bool,
    pub name: Option<Seq<char>>,
    pub localized: Option<Seq<char>>,
    pub command: Option<Seq<char>>,
    pub categories: Seq<Seq<char>>,
    pub entry_type: Option<Seq<char>>,
    pub no_display: bool,
    pub hidden: bool,
    pub only_show_in: Option<Seq<Seq<char>>>,
    pub not_show_in: Option<Seq<Seq<char>>>,
}

pub open spec fn scan_start() -> ScanState {
    ScanState {
        in_entry: false,
        stopped: false,
        name: None,
        localized: None,
        command: None,
        categories: seq![],
        entry_type: None,
        no_display: false,
        hidden: false,
        only_show_in: None,
        not_show_in: None,
    }
}

/// A key of the form `Name[tag]`.
pub open spec fn is_name_key(key: Seq<char>) -> bool {
    key.len() > "Name["@.len() && key.take("Name["@.len() as int) == "Name["@ && key.last()
        == ']'
}

/// The tag of a `Name[tag]` key.
pub open spec fn name_key_tag(key: Seq<char>) -> Seq<char> {
    key.subrange("Name["@.len() as int, key.len() - 1)
}

/// The effect of one `key=value` line of the primary section.
pub open spec fn apply_key(
    st: ScanState,
    key: Seq<char>,
    value: Seq<char>,
    lang: Option<Seq<char>>,
) -> ScanState {
    if key == "Name"@ {
        ScanState { name: Some(value), ..st }
    } else if is_name_key(key) {
        match lang {
            Some(l) => if lang_matches(name_key_tag(key), l) {
                ScanState { localized: Some(value), ..st }
            } else {
                st
            },
            None => st,
        }
    } else if key == "Exec"@ {
        ScanState { command: Some(value), ..st }
    } else if key == "Categories"@ {
        ScanState { categories: pieces(value, Delim::Char(';')), ..st }
    } else if key == "Type"@ {
        ScanState { entry_type: Some(value), ..st }
    } else if key == "NoDisplay"@ {
        ScanState { no_display: bool_value(value), ..st }
    } else if key == "Hidden"@ {
        ScanState { hidden: bool_value(value), ..st }
    } else if key == "OnlyShowIn"@ {
        ScanState { only_show_in: Some(pieces(value, Delim::Char(';'))), ..st }
    } else if key == "NotShowIn"@ {
        ScanState { not_show_in: Some(pieces(value, Delim::Char(';'))), ..st }
    } else {
        st
    }
}

/// The effect of one raw line: it is trimmed; blank lines and comments are
/// skipped; a `[...]` header enters or leaves the primary section (a second
/// header after it ends the scan); inside it, a line is split at its first `=`
/// into a key and a trimmed value, and a line without `=` is skipped.
pub open spec fn scan_line(st: ScanState, raw: Seq<char>, lang: Option<Seq<char>>) -> ScanState {
    let line = trim(raw);
    if st.stopped || line.len() == 0 || line[0] == '#' {
        st
    } else if line[0] == '[' && line.last() == ']' {
        if st.in_entry {
            ScanState { stopped: true, ..st }
        } else {
            ScanState { in_entry: line == "[Desktop Entry]"@, ..st }
        }
    } else if !st.in_entry {
        st
    } else {
        let e = first_index(line, |c: char| c == '=');
        if e == line.len() {
            st
        } else {
            apply_key(st, line.take(e), trim(line.subrange(e + 1, line.len() as int)), lang)
        }
    }
}

/// The state after scanning `lines` in order.
pub open spec fn scan_lines(lines: Seq<Seq<char>>, lang: Option<Seq<char>>) -> ScanState
    decreases lines.len(),
{
    if lines.len() == 0 {
        scan_start()
    } else {
        scan_line(scan_lines(lines.drop_last(), lang), lines.last(), lang)
    }
}

/// The lines of a descriptor's text. Empty lines are left out: a blank line
/// has no effect on the scan.
pub open spec fn lines_of(contents: Seq<char>) -> Seq<Seq<char>> {
    pieces(contents, Delim::Char('\n'))
}

/// The last component of a path.
pub open spec fn base_name(path: Seq<char>) -> Seq<char> {
    path.subrange(last_index(path, '/') + 1, path.len() as int)
}

/// A file's base name without its extension, as `Path::file_stem` gives it; none
/// for a path that ends in `/`.
pub open spec fn file_stem(path: Seq<char>) -> Option<Seq<char>> {
    let b = base_name(path);
    let dot = last_index(b, '.');
    if b.len() == 0 {
        None
    } else if dot <= 0 {
        Some(b)
    } else {
        Some(b.take(dot))
    }
}

/// Whether the desktop filters let an entry through for the current desktops.
/// Without current desktops both filters are skipped.
pub open spec fn shown_in(st: ScanState, desktops: Option<Seq<Seq<char>>>) -> bool {
    match desktops {
        None => true,
        Some(d) => (match st.only_show_in {
            None => true,
            Some(o) => share_any(o, d),
        }) && (match st.not_show_in {
            None => true,
            Some(n) => !share_any(n, d),
        }),
    }
}

/// The display name: the localized name, else the plain name, else the file stem.
pub open spec fn display_name(st: ScanState, path: Seq<char>) -> Option<Seq<char>> {
    match st.localized {
        Some(l) => Some(l),
        None => match st.name {
            Some(n) => Some(n),
            None => file_stem(path),
        },
    }
}

/// The record that the descriptor text `contents`, read from `path`, yields, or
/// none when it is rejected.
pub open spec fn parsed_entry(
    path: Seq<char>,
    contents: Seq<char>,
    lang: Option<Seq<char>>,
    desktops: Option<Seq<Seq<char>>>,
) -> Option<EntryModel> {
    let st = scan_lines(lines_of(contents), lang);
    if st.entry_type != Some("Application"@) || st.no_display || st.hidden || !shown_in(
        st,
        desktops,
    ) {
        None
    } else {
        match display_name(st, path) {
            None => None,
            Some(name) => Some(
                EntryModel {
                    name,
                    command: match st.command {
                        Some(x) => x,
                        None => seq![],
                    },
                    categories: if st.categories.len() == 0 {
                        seq!["Other"@]
                    } else {
                        st.categories
                    },
                    path,
                },
            ),
        }
    }
}


pub open spec fn opt_view(o: Option<Vec<char>>) -> Option<Seq<char>> {
    match o {
        Some(v) => Some(v@),
        None => None,
    }
}

pub open spec fn opt_views(o: Option<Vec<Vec<char>>>) -> Option<Seq<Seq<char>>> {
    match o {
        Some(v) => Some(views(v@)),
        None => None,
    }
}

/// The scan state held in executable values.
struct Scan {
    in_entry: bool,
    stopped: bool,
    name: Option<Vec<char>>,
    localized: Option<Vec<char>>,
    command: Option<Vec<char>>,
    categories: Vec<Vec<char>>,
    entry_type: Option<Vec<char>>,
    no_display: bool,
    hidden: bool,
    only_show_in: Option<Vec<Vec<char>>>,
    not_show_in: Option<Vec<Vec<char>>>,
}

impl View for Scan {
    type V = ScanState;

    closed spec fn view(&self) -> ScanState {
        ScanState {
            in_entry: self.in_entry,
            stopped: self.stopped,
            name: opt_view(self.name),
            localized: opt_view(self.localized),
            command: opt_view(self.command),
            categories: views(self.categories@),
            entry_type: opt_view(self.entry_type),
            no_display: self.no_display,
            hidden: self.hidden,
            only_show_in: opt_views(self.only_show_in),
            not_show_in: opt_views(self.not_show_in),
        }
    }
}

/// The recognized keys and fixed words, as characters.
struct Words {
    section: Vec<char>,
    name: Vec<char>,
    name_open: Vec<char>,
    command: Vec<char>,
    categories: Vec<char>,
    entry_type: Vec<char>,
    no_display: Vec<char>,
    hidden: Vec<char>,
    only_show_in: Vec<char>,
    not_show_in: Vec<char>,
    application: Vec<char>,
}

impl Words {
    spec fn wf(&self) -> bool {
        &&& self.section@ == "[Desktop Entry]"@
        &&& self.name@ == "Name"@
        &&& self.name_open@ == "Name["@
        &&& self.command@ == "Exec"@
        &&& self.categories@ == "Categories"@
        &&& self.entry_type@ == "Type"@
        &&& self.no_display@ == "NoDisplay"@
        &&& self.hidden@ == "Hidden"@
        &&& self.only_show_in@ == "OnlyShowIn"@
        &&& self.not_show_in@ == "NotShowIn"@
        &&& self.application@ == "Application"@
    }

    fn new() -> (r: Words)
        ensures
            r.wf(),
    {
        Words {
            section: chars_of("[Desktop Entry]"),
            name: chars_of("Name"),
            name_open: chars_of("Name["),
            command: chars_of("Exec"),
            categories: chars_of("Categories"),
            entry_type: chars_of("Type"),
            no_display: chars_of("NoDisplay"),
            hidden: chars_of("Hidden"),
            only_show_in: chars_of("OnlyShowIn"),
            not_show_in: chars_of("NotShowIn"),
            application: chars_of("Application"),
        }
    }
}

fn apply_key_exec(
    st: &mut Scan,
    key: Vec<char>,
    value: Vec<char>,
    lang: &Option<Vec<char>>,
    w: &Words,
)
    requires
        w.wf(),
    ensures
        final(st)@ == apply_key(old(st)@, key@, value@, opt_view(*lang)),
{
    let semi = Delim::Char(';');
    if same_chars(&key, &w.name) {
        st.name = Some(value);
    } else if key.len() > w.name_open.len() && starts_with(&key, &w.name_open) && key[key.len()
        - 1] == ']' {
        match lang {
            Some(l) => {
                let tag = slice_of(&key, w.name_open.len(), key.len() - 1);
                if lang_matches_chars(&tag, l) {
                    st.localized = Some(value);
                }
            },
            None => {},
        }
    } else if same_chars(&key, &w.command) {
        st.command = Some(value);
    } else if same_chars(&key, &w.categories) {
        st.categories = split_pieces(&value, &semi);
    } else if same_chars(&key, &w.entry_type) {
        st.entry_type = Some(value);
    } else if same_chars(&key, &w.no_display) {
        st.no_display = bool_value_chars(&value);
    } else if same_chars(&key, &w.hidden) {
        st.hidden = bool_value_chars(&value);
    } else if same_chars(&key, &w.only_show_in) {
        st.only_show_in = Some(split_pieces(&value, &semi));
    } else if same_chars(&key, &w.not_show_in) {
        st.not_show_in = Some(split_pieces(&value, &semi));
    }
}

fn scan_line_exec(st: &mut Scan, raw: &Vec<char>, lang: &Option<Vec<char>>, w: &Words)
    requires
        w.wf(),
    ensures
        final(st)@ == scan_line(old(st)@, raw@, opt_view(*lang)),
{
    let line = trim_chars(raw);
    let n = line.len();
    if st.stopped || n == 0 || line[0] == '#' {
        return;
    }
    if line[0] == '[' && line[n - 1] == ']' {
        if st.in_entry {
            st.stopped = true;
        } else {
            st.in_entry = same_chars(&line, &w.section);
        }
        return;
    }
    if !st.in_entry {
        return;
    }
    let mut e: usize = 0;
    while e < n && line[e] != '='
        invariant
            n == line.len(),
            e <= n,
            forall|k: int| 0 <= k < e ==> line@[k] != '=',
        decreases n - e,
    {
        e = e + 1;
    }
    proof {
        lemma_first_index(line@, |c: char| c == '=', e as int);
    }
    if e == n {
        return;
    }
    let key = slice_of(&line, 0, e);
    let rest = slice_of(&line, e + 1, n);
    let value = trim_chars(&rest);
    apply_key_exec(st, key, value, lang, w);
}

pub fn file_stem_chars(path: &Vec<char>) -> (r: Option<Vec<char>>)
    ensures
        opt_view(r) == file_stem(path@),
{
    let start = match last_index_of(path, '/') {
        Some(i) => i + 1,
        None => 0,
    };
    let b = slice_of(path, start, path.len());
    if b.len() == 0 {
        return None;
    }
    match last_index_of(&b, '.') {
        Some(d) => if d == 0 {
            Some(b)
        } else {
            Some(slice_of(&b, 0, d))
        },
        None => Some(b),
    }
}

/// The characters of each string.
pub fn chars_of_each(v: &[String]) -> (r: Vec<Vec<char>>)
    ensures
        views(r@) == string_views(v@),
{
    let mut r: Vec<Vec<char>> = Vec::new();
    let mut i: usize = 0;
    while i < v.len()
        invariant
            i <= v.len(),
            views(r@) == string_views(v@).take(i as int),
        decreases v.len() - i,
    {
        let ghost before = r@;
        r.push(chars_of(v[i].as_str()));
        assert(views(r@) =~= views(before).push(v@[i as int]@));
        assert(string_views(v@).take(i + 1) =~= string_views(v@).take(i as int).push(
            v@[i as int]@,
        ));
        i = i + 1;
    }
    assert(string_views(v@).take(i as int) =~= string_views(v@));
    r
}

/// A string for each character sequence.
pub fn strings_of(v: &Vec<Vec<char>>) -> (r: Vec<String>)
    ensures
        string_views(r@) == views(v@),
{
    let mut r: Vec<String> = Vec::new();
    let mut i: usize = 0;
    while i < v.len()
        invariant
            i <= v.len(),
            string_views(r@) == views(v@).take(i as int),
        decreases v.len() - i,
    {
        let ghost before = r@;
        r.push(string_of(&v[i]));
        assert(string_views(r@) =~= string_views(before).push(v@[i as int]@));
        assert(views(v@).take(i + 1) =~= views(v@).take(i as int).push(v@[i as int]@));
        i = i + 1;
    }
    assert(views(v@).take(i as int) =~= views(v@));
    r
}

/// The current desktops named by a colon-separated list, empty names left out.
pub fn desktop_list(value: &str) -> (r: Vec<String>)
    ensures
        string_views(r@) == pieces(value@, Delim::Char(':')),
{
    strings_of(&split_pieces(&chars_of(value), &Delim::Char(':')))
}

/// Parses the text of one descriptor file read from `path`, for the current
/// locale and current desktops when known. Returns the record, or `None` when
/// the descriptor is not an application, is hidden or not displayed, is
/// filtered out for the current desktops, or has no name at all.
pub fn parse_desktop_entry(
    path: &str,
    contents: &str,
    current_lang: Option<&str>,
    current_desktops: Option<&[String]>,
) -> (r: Option<DesktopEntry>)
    ensures
        match r {
            Some(e) => parsed_entry(
                path@,
                contents@,
                match current_lang {
                    Some(l) => Some(l@),
                    None => None,
                },
                match current_desktops {
                    Some(d) => Some(string_views(d@)),
                    None => None,
                },
            ) == Some(e@),
            None => parsed_entry(
                path@,
                contents@,
                match current_lang {
                    Some(l) => Some(l@),
                    None => None,
                },
                match current_desktops {
                    Some(d) => Some(string_views(d@)),
                    None => None,
                },
            ) is None,
        },
{
    let w = Words::new();
    let lang: Option<Vec<char>> = match current_lang {
        Some(l) => Some(chars_of(l)),
        None => None,
    };
    let desktops: Option<Vec<Vec<char>>> = match current_desktops {
        Some(d) => Some(chars_of_each(d)),
        None => None,
    };
    let text = chars_of(contents);
    let lines = split_pieces(&text, &Delim::Char('\n'));
    let mut st = Scan {
        in_entry: false,
        stopped: false,
        name: None,
        localized: None,
        command: None,
        categories: Vec::new(),
        entry_type: None,
        no_display: false,
        hidden: false,
        only_show_in: None,
        not_show_in: None,
    };
    assert(views(st.categories@) =~= seq![]);
    let mut i: usize = 0;
    while i < lines.len()
        invariant
            w.wf(),
            i <= lines.len(),
            views(lines@) == lines_of(text@),
            st@ == scan_lines(views(lines@).take(i as int), opt_view(lang)),
        decreases lines.len() - i,
    {
        assert(views(lines@).take(i + 1).drop_last() =~= views(lines@).take(i as int));
        scan_line_exec(&mut st, &lines[i], &lang, &w);
        i = i + 1;
    }
    assert(views(lines@).take(i as int) =~= views(lines@));
    let is_app = match &st.entry_type {
        Some(t) => same_chars(t, &w.application),
        None => false,
    };
    if !is_app || st.no_display || st.hidden {
        return None;
    }
    match &desktops {
        Some(d) => {
            match &st.only_show_in {
                Some(o) => if !share_any_chars(o, d) {
                    return None;
                },
                None => {},
            }
            match &st.not_show_in {
                Some(x) => if share_any_chars(x, d) {
                    return None;
                },
                None => {},
            }
        },
        None => {},
    }
    let path_chars = chars_of(path);
    let name = match st.localized {
        Some(l) => l,
        None => match st.name {
            Some(n) => n,
            None => match file_stem_chars(&path_chars) {
                Some(s) => s,
                None => {
                    return None;
                },
            },
        },
    };
    let command = match st.command {
        Some(x) => string_of(&x),
        None => String::new(),
    };
    let categories = if st.categories.len() == 0 {
        let mut c: Vec<String> = Vec::new();
        c.push(string_of(&chars_of("Other")));
        assert(string_views(c@) =~= seq!["Other"@]);
        c
    } else {
        strings_of(&st.categories)
    };
    Some(DesktopEntry { name: string_of(&name), command, categories, path: string_of(&path_chars) })
}

} // verus!
