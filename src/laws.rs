use vstd::prelude::*;

use crate::category::{bucket_of, buckets_of, has_tag, members_upto, Category};
use crate::entry::DesktopEntry;
use crate::collect::{identity, kept, own_identity, winners_upto, wins, CandidateModel};
use crate::entry::{file_stem, lines_of, parsed_entry, scan_lines, shown_in, ScanState};
use crate::exec::{exec_check_of, first_word, has_shell_syntax, is_shell_char, words_check};
use crate::locale::{is_lang_stop, lang_matches};
use crate::text::{is_ws, lemma_first_index, share_any, trim, trim_end, trim_start};

verus! {

/// An empty tag matches no locale, and no tag matches an empty locale.
pub proof fn lemma_empty_tag_or_locale_never_matches(tag: Seq<char>, lang: Seq<char>)
    requires
        tag.len() == 0 || lang.len() == 0,
    ensures
        !lang_matches(tag, lang),
{
    if lang.len() == 0 {
        lemma_first_index(lang, |c: char| is_lang_stop(c), 0);
    }
}

/// With current desktops known, `OnlyShowIn` keeps an entry exactly when a
/// listed desktop is current, and `NotShowIn` with the same list keeps it
/// exactly when none is.
pub proof fn lemma_show_in_filters(st: ScanState, listed: Seq<Seq<char>>, current: Seq<Seq<char>>)
    requires
        st.only_show_in is None,
        st.not_show_in is None,
    ensures
        shown_in(ScanState { only_show_in: Some(listed), ..st }, Some(current)) == share_any(
            listed,
            current,
        ),
        shown_in(ScanState { not_show_in: Some(listed), ..st }, Some(current)) == !share_any(
            listed,
            current,
        ),
        shown_in(ScanState { only_show_in: Some(listed), ..st }, None),
        shown_in(ScanState { not_show_in: Some(listed), ..st }, None),
{
}

/// A tag list naming only `Other` lands in the `Other` bucket.
pub proof fn lemma_other_tag_is_other()
    ensures
        bucket_of(seq!["Other"@]) == Category::Other,
{
    reveal_strlit("TerminalEmulator");
    reveal_strlit("Terminal");
    reveal_strlit("Network");
    reveal_strlit("WebBrowser");
    reveal_strlit("Internet");
    reveal_strlit("Game");
    reveal_strlit("Games");
    reveal_strlit("Audio");
    reveal_strlit("AudioVideo");
    reveal_strlit("AudioVideoEditing");
    reveal_strlit("Video");
    reveal_strlit("VideoConference");
    reveal_strlit("Graphics");
    reveal_strlit("Photography");
    reveal_strlit("Development");
    reveal_strlit("IDE");
    reveal_strlit("Programming");
    reveal_strlit("Accessory");
    reveal_strlit("Accessories");
    reveal_strlit("TextEditor");
    reveal_strlit("Office");
    reveal_strlit("Utility");
    reveal_strlit("Utilities");
    reveal_strlit("System");
    reveal_strlit("Settings");
    reveal_strlit("Other");
    assert("TerminalEmulator"@.len() == 16 && "TerminalEmulator"@[0] == 'T');
    assert("Terminal"@.len() == 8 && "Terminal"@[0] == 'T');
    assert("Network"@.len() == 7 && "Network"@[0] == 'N');
    assert("WebBrowser"@.len() == 10 && "WebBrowser"@[0] == 'W');
    assert("Internet"@.len() == 8 && "Internet"@[0] == 'I');
    assert("Game"@.len() == 4 && "Game"@[0] == 'G');
    assert("Games"@.len() == 5 && "Games"@[0] == 'G');
    assert("Audio"@.len() == 5 && "Audio"@[0] == 'A');
    assert("AudioVideo"@.len() == 10 && "AudioVideo"@[0] == 'A');
    assert("AudioVideoEditing"@.len() == 17 && "AudioVideoEditing"@[0] == 'A');
    assert("Video"@.len() == 5 && "Video"@[0] == 'V');
    assert("VideoConference"@.len() == 15 && "VideoConference"@[0] == 'V');
    assert("Graphics"@.len() == 8 && "Graphics"@[0] == 'G');
    assert("Photography"@.len() == 11 && "Photography"@[0] == 'P');
    assert("Development"@.len() == 11 && "Development"@[0] == 'D');
    assert("IDE"@.len() == 3 && "IDE"@[0] == 'I');
    assert("Programming"@.len() == 11 && "Programming"@[0] == 'P');
    assert("Accessory"@.len() == 9 && "Accessory"@[0] == 'A');
    assert("Accessories"@.len() == 11 && "Accessories"@[0] == 'A');
    assert("TextEditor"@.len() == 10 && "TextEditor"@[0] == 'T');
    assert("Office"@.len() == 6 && "Office"@[0] == 'O');
    assert("Utility"@.len() == 7 && "Utility"@[0] == 'U');
    assert("Utilities"@.len() == 9 && "Utilities"@[0] == 'U');
    assert("System"@.len() == 6 && "System"@[0] == 'S');
    assert("Settings"@.len() == 8 && "Settings"@[0] == 'S');
    assert("Other"@.len() == 5 && "Other"@[0] == 'O');
}

/// An accepted descriptor without `Name` (plain or localized) is named after
/// its file's base name without extension, and one without categories lands
/// in the `Other` bucket.
pub proof fn lemma_fallback_name_and_bucket(
    path: Seq<char>,
    contents: Seq<char>,
    lang: Option<Seq<char>>,
    desktops: Option<Seq<Seq<char>>>,
)
    requires
        parsed_entry(path, contents, lang, desktops) is Some,
    ensures
        scan_lines(lines_of(contents), lang).name is None && scan_lines(
            lines_of(contents),
            lang,
        ).localized is None ==> file_stem(path) == Some(
            parsed_entry(path, contents, lang, desktops)->0.name,
        ),
        scan_lines(lines_of(contents), lang).categories.len() == 0 ==> bucket_of(
            parsed_entry(path, contents, lang, desktops)->0.categories,
        ) == Category::Other,
{
    lemma_other_tag_is_other();
}

/// A tag list holding `TerminalEmulator` lands in the terminal bucket, wherever
/// the tag stands among the others.
pub proof fn lemma_terminal_tag_wins(tags: Seq<Seq<char>>)
    requires
        has_tag(tags, "TerminalEmulator"@),
    ensures
        bucket_of(tags) == Category::TerminalEmulator,
{
}

/// A word with no whitespace, quote or backslash is judged the same whether it
/// comes first out of a shell split (a quoted `'/path'` or `"/path"` splits
/// into `/path`) or stands unquoted as the whole command line.
pub proof fn lemma_split_word_checked_as_plain(word: Seq<char>, rest: Seq<Seq<char>>)
    requires
        word.len() > 0,
        forall|i: int| 0 <= i < word.len() ==> !is_ws(word[i]) && !is_shell_char(word[i]),
    ensures
        words_check(Some(seq![word] + rest)) == exec_check_of(word),
{
    assert(trim_start(word) == word);
    assert(trim_end(word) == word);
    assert(trim(word) == word);
    assert(!has_shell_syntax(word));
    lemma_first_index(word, |c: char| is_ws(c), word.len() as int);
    assert(first_word(word) =~= word);
    assert((seq![word] + rest)[0] == word);
}

/// Two sources of one application: the later one is kept only when it alone
/// has a valid command; otherwise the first found is kept.
pub proof fn lemma_override_two_sources(a: CandidateModel, b: CandidateModel)
    requires
        identity(a.entry) == identity(b.entry),
        identity(a.entry) != own_identity(),
    ensures
        kept(seq![a, b]) == if !a.valid && b.valid {
            seq![b.entry]
        } else {
            seq![a.entry]
        },
{
    let c = seq![a, b];
    assert(c[0] == a && c[1] == b);
    assert(winners_upto(c, 0) == Seq::<int>::empty());
    if !a.valid && b.valid {
        assert(winners_upto(c, 1) == Seq::<int>::empty());
        assert(winners_upto(c, 2) == seq![1int]);
    } else {
        assert(winners_upto(c, 1) == seq![0int]);
        assert(winners_upto(c, 2) == seq![0int]);
    }
    assert(kept(c) =~= winners_upto(c, 2).map_values(|k: int| c[k].entry));
}


proof fn lemma_winners_upto(c: Seq<CandidateModel>, n: int)
    requires
        0 <= n <= c.len(),
    ensures
        forall|k: int|
            0 <= k < winners_upto(c, n).len() ==> 0 <= #[trigger] winners_upto(c, n)[k] < n
                && wins(c, winners_upto(c, n)[k]),
        forall|a: int, b: int|
            0 <= a < b < winners_upto(c, n).len() ==> winners_upto(c, n)[a] < winners_upto(
                c,
                n,
            )[b],
    decreases n,
{
    if n > 0 {
        lemma_winners_upto(c, n - 1);
        let w0 = winners_upto(c, n - 1);
        let w = winners_upto(c, n);
        if wins(c, n - 1) {
            assert(w == w0.push(n - 1));
            assert forall|a: int, b: int| 0 <= a < b < w.len() implies w[a] < w[b] by {
                assert(w[a] == w0[a]);
                if b < w0.len() {
                    assert(w[b] == w0[b]);
                }
            }
            assert forall|k: int| 0 <= k < w.len() implies 0 <= #[trigger] w[k] < n && wins(
                c,
                w[k],
            ) by {
                if k < w0.len() {
                    assert(w[k] == w0[k]);
                }
            }
        }
    }
}

/// The final records hold at most one record per identity.
pub proof fn lemma_one_record_per_identity(c: Seq<CandidateModel>)
    ensures
        forall|i: int, j: int|
            0 <= i < j < kept(c).len() ==> identity(kept(c)[i]) != identity(kept(c)[j]),
{
    let w = winners_upto(c, c.len() as int);
    lemma_winners_upto(c, c.len() as int);
    assert forall|i: int, j: int| 0 <= i < j < kept(c).len() implies identity(kept(c)[i])
        != identity(kept(c)[j]) by {
        let x = w[i];
        let y = w[j];
        assert(wins(c, x) && wins(c, y) && x < y);
        assert(kept(c)[i] == c[x].entry && kept(c)[j] == c[y].entry);
        if identity(c[x].entry) == identity(c[y].entry) {
            if c[y].valid {
                assert(!c[x].valid);
            }
        }
    }
}


proof fn lemma_members_upto(b: Seq<Category>, c: Category, n: int, i: int)
    requires
        0 <= i < n <= b.len(),
        n <= usize::MAX,
    ensures
        members_upto(b, c, n).contains(i as usize) <==> b[i] == c,
    decreases n,
{
    let m = members_upto(b, c, n - 1);
    lemma_members_below(b, c, n - 1);
    if i < n - 1 {
        lemma_members_upto(b, c, n - 1, i);
        if b[n - 1] == c {
            assert(members_upto(b, c, n) == m.push((n - 1) as usize));
            if members_upto(b, c, n).contains(i as usize) {
                let k = choose|k: int|
                    0 <= k < members_upto(b, c, n).len() && members_upto(b, c, n)[k] == i as usize;
                if k < m.len() {
                    assert(m.contains(i as usize));
                }
            }
            if m.contains(i as usize) {
                let k = choose|k: int| 0 <= k < m.len() && m[k] == i as usize;
                assert(members_upto(b, c, n)[k] == i as usize);
            }
        }
    } else {
        if b[n - 1] == c {
            assert(members_upto(b, c, n)[m.len() as int] == i as usize);
        } else {
            if m.contains(i as usize) {
                let k = choose|k: int| 0 <= k < m.len() && m[k] == i as usize;
                assert(m[k] < n - 1);
            }
        }
    }
}

proof fn lemma_members_below(b: Seq<Category>, c: Category, n: int)
    requires
        0 <= n <= b.len(),
        n <= usize::MAX,
    ensures
        forall|k: int|
            0 <= k < members_upto(b, c, n).len() ==> (#[trigger] members_upto(b, c, n)[k]) < n,
    decreases n,
{
    if n > 0 {
        lemma_members_below(b, c, n - 1);
        let m = members_upto(b, c, n - 1);
        if b[n - 1] == c {
            assert forall|k: int| 0 <= k < members_upto(b, c, n).len() implies (
            #[trigger] members_upto(b, c, n)[k]) < n by {
                if k < m.len() {
                    assert(members_upto(b, c, n)[k] == m[k]);
                }
            }
        }
    }
}

/// Every record of the list stands in the bucket of its own category and in
/// no other.
pub proof fn lemma_each_record_in_one_bucket(entries: Seq<DesktopEntry>, i: int, c: Category)
    requires
        0 <= i < entries.len(),
        entries.len() <= usize::MAX,
    ensures
        members_upto(buckets_of(entries), c, entries.len() as int).contains(i as usize) <==> c
            == bucket_of(entries[i]@.categories),
{
    lemma_members_upto(buckets_of(entries), c, entries.len() as int, i);
}

} // verus!
