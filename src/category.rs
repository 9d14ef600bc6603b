use vstd::prelude::*;

use crate::entry::{string_views, DesktopEntry};
use crate::collect::entry_views;
use crate::text::{chars_of, same_chars};

verus! {

/// The fixed display categories.
#[derive(Debug, Clone, Copy, PartialEq, Eq, Structural)]
pub enum Category {
    TerminalEmulator,
    Internet,
    Games,
    AudioVideo,
    Graphics,
    Development,
    Accessories,
    TextEditors,
    Office,
    Utilities,
    System,
    Other,
}

/// The label shown for a category.
pub open spec fn label_of(c: Category) -> Seq<char> {
    match c {
        Category::TerminalEmulator => "Terminal Emulator"@,
        Category::Internet => "Internet"@,
        Category::Games => "Games"@,
        Category::AudioVideo => "Audio/Video"@,
        Category::Graphics => "Graphics"@,
        Category::Development => "Development"@,
        Category::Accessories => "Accessories"@,
        Category::TextEditors => "Text Editors"@,
        Category::Office => "Office"@,
        Category::Utilities => "Utilities"@,
        Category::System => "System"@,
        Category::Other => "Other"@,
    }
}

/// The position of a category in a `CategoryMap`.
pub open spec fn slot_of(c: Category) -> int {
    match c {
        Category::TerminalEmulator => 0,
        Category::Internet => 1,
        Category::Games => 2,
        Category::AudioVideo => 3,
        Category::Graphics => 4,
        Category::Development => 5,
        Category::Accessories => 6,
        Category::TextEditors => 7,
        Category::Office => 8,
        Category::Utilities => 9,
        Category::System => 10,
        Category::Other => 11,
    }
}

pub open spec fn has_tag(tags: Seq<Seq<char>>, t: Seq<char>) -> bool {
    exists|i: int| 0 <= i < tags.len() && tags[i] == t
}

/// The bucket of a record with these category tags: the first group of this
/// list, in priority order, that one of its tags belongs to, else `Other`.
pub open spec fn bucket_of(tags: Seq<Seq<char>>) -> Category {
    let has = |t: Seq<char>| has_tag(tags, t);
    if has("TerminalEmulator"@) || has("Terminal"@) {
        Category::TerminalEmulator
    } else if has("Network"@) || has("WebBrowser"@) || has("Internet"@) {
        Category::Internet
    } else if has("Game"@) || has("Games"@) {
        Category::Games
    } else if has("Audio"@) || has("AudioVideo"@) || has("AudioVideoEditing"@) || has("Video"@)
        || has("VideoConference"@) {
        Category::AudioVideo
    } else if has("Graphics"@) || has("Photography"@) {
        Category::Graphics
    } else if has("Development"@) || has("IDE"@) || has("Programming"@) {
        Category::Development
    } else if has("Accessory"@) || has("Accessories"@) {
        Category::Accessories
    } else if has("TextEditor"@) {
        Category::TextEditors
    } else if has("Office"@) {
        Category::Office
    } else if has("Utility"@) || has("Utilities"@) {
        Category::Utilities
    } else if has("System"@) || has("Settings"@) {
        Category::System
    } else {
        Category::Other
    }
}

impl Category {
    /// The label shown for this category.
    pub fn label(&self) -> (r: &'static str)
        ensures
            r@ == label_of(*self),
    {
        match self {
            Category::TerminalEmulator => "Terminal Emulator",
            Category::Internet => "Internet",
            Category::Games => "Games",
            Category::AudioVideo => "Audio/Video",
            Category::Graphics => "Graphics",
            Category::Development => "Development",
            Category::Accessories => "Accessories",
            Category::TextEditors => "Text Editors",
            Category::Office => "Office",
            Category::Utilities => "Utilities",
            Category::System => "System",
            Category::Other => "Other",
        }
    }

    pub fn slot(&self) -> (r: usize)
        ensures
            r == slot_of(*self),
    {
        match self {
            Category::TerminalEmulator => 0,
            Category::Internet => 1,
            Category::Games => 2,
            Category::AudioVideo => 3,
            Category::Graphics => 4,
            Category::Development => 5,
            Category::Accessories => 6,
            Category::TextEditors => 7,
            Category::Office => 8,
            Category::Utilities => 9,
            Category::System => 10,
            Category::Other => 11,
        }
    }

    /// The category with this label, if any.
    pub fn from_label(label: &str) -> (r: Option<Category>)
        ensures
            match r {
                Some(c) => label_of(c) == label@,
                None => forall|c: Category| label_of(c) != label@,
            },
    {
        let l = chars_of(label);
        let all = all_categories();
        let mut i: usize = 0;
        while i < all.len()
            invariant
                i <= all.len(),
                l@ == label@,
                forall|c: Category| #[trigger] all@.contains(c),
                forall|k: int| 0 <= k < i ==> label_of(#[trigger] all@[k]) != label@,
            decreases all.len() - i,
        {
            if same_chars(&l, &chars_of(all[i].label())) {
                return Some(all[i]);
            }
            i = i + 1;
        }
        assert forall|c: Category| label_of(c) != label@ by {
            assert(all@.contains(c));
        }
        None
    }
}

/// The categories in the order a selector lists them.
pub fn all_categories() -> (r: Vec<Category>)
    ensures
        r@ == seq![
            Category::Accessories,
            Category::AudioVideo,
            Category::Development,
            Category::Games,
            Category::Graphics,
            Category::TextEditors,
            Category::Internet,
            Category::Office,
            Category::System,
            Category::TerminalEmulator,
            Category::Utilities,
            Category::Other,
        ],
        forall|c: Category| #[trigger] r@.contains(c),
{
    let r = vec![
        Category::Accessories,
        Category::AudioVideo,
        Category::Development,
        Category::Games,
        Category::Graphics,
        Category::TextEditors,
        Category::Internet,
        Category::Office,
        Category::System,
        Category::TerminalEmulator,
        Category::Utilities,
        Category::Other,
    ];
    assert forall|c: Category| #[trigger] r@.contains(c) by {
        match c {
            Category::Accessories => assert(r@[0] == c),
            Category::AudioVideo => assert(r@[1] == c),
            Category::Development => assert(r@[2] == c),
            Category::Games => assert(r@[3] == c),
            Category::Graphics => assert(r@[4] == c),
            Category::TextEditors => assert(r@[5] == c),
            Category::Internet => assert(r@[6] == c),
            Category::Office => assert(r@[7] == c),
            Category::System => assert(r@[8] == c),
            Category::TerminalEmulator => assert(r@[9] == c),
            Category::Utilities => assert(r@[10] == c),
            Category::Other => assert(r@[11] == c),
        }
    }
    r
}

fn has_tag_exec(tags: &Vec<Vec<char>>, t: &str) -> (r: bool)
    ensures
        r == has_tag(tags@.map_values(|x: Vec<char>| x@), t@),
{
    let want = chars_of(t);
    let mut i: usize = 0;
    while i < tags.len()
        invariant
            i <= tags.len(),
            want@ == t@,
            forall|k: int| 0 <= k < i ==> tags@[k]@ != t@,
        decreases tags.len() - i,
    {
        if same_chars(&tags[i], &want) {
            assert(tags@.map_values(|x: Vec<char>| x@)[i as int] == t@);
            return true;
        }
        i = i + 1;
    }
    false
}

/// The bucket of a record with these category tags.
pub fn map_categories(categories: &[String]) -> (r: Category)
    ensures
        r == bucket_of(string_views(categories@)),
{
    let mut tags: Vec<Vec<char>> = Vec::new();
    let mut i: usize = 0;
    while i < categories.len()
        invariant
            i <= categories.len(),
            tags@.map_values(|x: Vec<char>| x@) == string_views(categories@).take(i as int),
        decreases categories.len() - i,
    {
        let ghost before = tags@;
        tags.push(chars_of(categories[i].as_str()));
        assert(tags@.map_values(|x: Vec<char>| x@) =~= before.map_values(|x: Vec<char>| x@).push(
            categories@[i as int]@,
        ));
        assert(string_views(categories@).take(i + 1) =~= string_views(categories@).take(
            i as int,
        ).push(categories@[i as int]@));
        i = i + 1;
    }
    assert(string_views(categories@).take(i as int) =~= string_views(categories@));
    if has_tag_exec(&tags, "TerminalEmulator")
        || has_tag_exec(&tags, "Terminal") {
        Category::TerminalEmulator
    } else if has_tag_exec(&tags, "Network")
        || has_tag_exec(&tags, "WebBrowser")
        || has_tag_exec(&tags, "Internet") {
        Category::Internet
    } else if has_tag_exec(&tags, "Game")
        || has_tag_exec(&tags, "Games") {
        Category::Games
    } else if has_tag_exec(&tags, "Audio")
        || has_tag_exec(&tags, "AudioVideo")
        || has_tag_exec(&tags, "AudioVideoEditing")
        || has_tag_exec(&tags, "Video")
        || has_tag_exec(&tags, "VideoConference") {
        Category::AudioVideo
    } else if has_tag_exec(&tags, "Graphics")
        || has_tag_exec(&tags, "Photography") {
        Category::Graphics
    } else if has_tag_exec(&tags, "Development")
        || has_tag_exec(&tags, "IDE")
        || has_tag_exec(&tags, "Programming") {
        Category::Development
    } else if has_tag_exec(&tags, "Accessory")
        || has_tag_exec(&tags, "Accessories") {
        Category::Accessories
    } else if has_tag_exec(&tags, "TextEditor") {
        Category::TextEditors
    } else if has_tag_exec(&tags, "Office") {
        Category::Office
    } else if has_tag_exec(&tags, "Utility")
        || has_tag_exec(&tags, "Utilities") {
        Category::Utilities
    } else if has_tag_exec(&tags, "System")
        || has_tag_exec(&tags, "Settings") {
        Category::System
    } else {
        Category::Other
    }
}

/// Distinct categories have distinct labels.
pub proof fn lemma_label_injective(c: Category, d: Category)
    requires
        label_of(c) == label_of(d),
    ensures
        c == d,
{
    reveal_strlit("Terminal Emulator");
    reveal_strlit("Internet");
    reveal_strlit("Games");
    reveal_strlit("Audio/Video");
    reveal_strlit("Graphics");
    reveal_strlit("Development");
    reveal_strlit("Accessories");
    reveal_strlit("Text Editors");
    reveal_strlit("Office");
    reveal_strlit("Utilities");
    reveal_strlit("System");
    reveal_strlit("Other");
    let l = label_of(Category::TerminalEmulator);
    assert(l.len() == 17 && l[0] == 'T' && l[1] == 'e');
    let l = label_of(Category::Internet);
    assert(l.len() == 8 && l[0] == 'I' && l[1] == 'n');
    let l = label_of(Category::Games);
    assert(l.len() == 5 && l[0] == 'G' && l[1] == 'a');
    let l = label_of(Category::AudioVideo);
    assert(l.len() == 11 && l[0] == 'A' && l[1] == 'u');
    let l = label_of(Category::Graphics);
    assert(l.len() == 8 && l[0] == 'G' && l[1] == 'r');
    let l = label_of(Category::Development);
    assert(l.len() == 11 && l[0] == 'D' && l[1] == 'e');
    let l = label_of(Category::Accessories);
    assert(l.len() == 11 && l[0] == 'A' && l[1] == 'c');
    let l = label_of(Category::TextEditors);
    assert(l.len() == 12 && l[0] == 'T' && l[1] == 'e');
    let l = label_of(Category::Office);
    assert(l.len() == 6 && l[0] == 'O' && l[1] == 'f');
    let l = label_of(Category::Utilities);
    assert(l.len() == 9 && l[0] == 'U' && l[1] == 't');
    let l = label_of(Category::System);
    assert(l.len() == 6 && l[0] == 'S' && l[1] == 'y');
    let l = label_of(Category::Other);
    assert(l.len() == 5 && l[0] == 'O' && l[1] == 't');
}

/// The positions below `n` of the records in bucket `c`, in increasing order.
pub open spec fn members_upto(buckets: Seq<Category>, c: Category, n: int) -> Seq<usize>
    decreases n,
{
    if n <= 0 {
        seq![]
    } else {
        let m = members_upto(buckets, c, n - 1);
        if buckets[n - 1] == c {
            m.push((n - 1) as usize)
        } else {
            m
        }
    }
}

/// The bucket of each record.
pub open spec fn buckets_of(entries: Seq<DesktopEntry>) -> Seq<Category> {
    entry_views(entries).map_values(|e: crate::entry::EntryModel| bucket_of(e.categories))
}

/// For each category, the positions of the records in it, in list order.
pub struct CategoryMap {
    slots: Vec<Vec<usize>>,
}

impl CategoryMap {
    /// The positions held for category `c`.
    pub closed spec fn members(&self, c: Category) -> Seq<usize> {
        self.slots@[slot_of(c)]@
    }

    pub closed spec fn wf(&self) -> bool {
        self.slots@.len() == 12
    }

    /// The positions of the records in category `c`, in list order.
    pub fn bucket(&self, c: Category) -> (r: &Vec<usize>)
        requires
            self.wf(),
        ensures
            r@ == self.members(c),
    {
        &self.slots[c.slot()]
    }

    /// The positions of the records in the category labelled `label`; none
    /// when no category has that label or it holds no record.
    pub fn get(&self, label: &str) -> (r: Option<&Vec<usize>>)
        requires
            self.wf(),
        ensures
            match r {
                Some(v) => exists|c: Category|
                    label_of(c) == label@ && v@ == self.members(c) && v@.len() > 0,
                None => forall|c: Category|
                    label_of(c) == label@ ==> self.members(c).len() == 0,
            },
    {
        match Category::from_label(label) {
            Some(c) => {
                let v = self.bucket(c);
                if v.len() > 0 {
                    Some(v)
                } else {
                    proof {
                        assert forall|d: Category| label_of(d) == label@ implies self.members(
                            d,
                        ).len() == 0 by {
                            lemma_label_injective(c, d);
                        }
                    }
                    None
                }
            },
            None => None,
        }
    }

    /// Whether the category labelled `label` holds at least one record.
    pub fn contains_key(&self, label: &str) -> (r: bool)
        requires
            self.wf(),
        ensures
            r == exists|c: Category| label_of(c) == label@ && self.members(c).len() > 0,
    {
        let r = self.get(label);
        proof {
            if r is None {
                assert forall|c: Category| !(label_of(c) == label@ && self.members(c).len() > 0) by {}
            }
        }
        r.is_some()
    }
}


/// Groups the records of the final list by category: each record's position
/// goes to the bucket of its category tags, in list order.
pub fn build_category_map(entries: &[DesktopEntry]) -> (r: CategoryMap)
    ensures
        r.wf(),
        forall|c: Category|
            #[trigger] r.members(c) == members_upto(
                buckets_of(entries@),
                c,
                entries@.len() as int,
            ),
{
    let ghost b = buckets_of(entries@);
    let mut cats: Vec<Category> = Vec::new();
    let mut i: usize = 0;
    while i < entries.len()
        invariant
            b == buckets_of(entries@),
            i <= entries.len(),
            cats@ == b.take(i as int),
        decreases entries.len() - i,
    {
        cats.push(map_categories(entries[i].categories.as_slice()));
        assert(cats@ =~= b.take(i + 1));
        i = i + 1;
    }
    assert(cats@ =~= b);
    let mut slots: Vec<Vec<usize>> = Vec::new();
    let mut s: usize = 0;
    while s < 12
        invariant
            b == buckets_of(entries@),
            cats@ == b,
            s <= 12,
            slots@.len() == s,
            forall|c: Category|
                slot_of(c) < s ==> #[trigger] slots@[slot_of(c)]@ == members_upto(
                    b,
                    c,
                    b.len() as int,
                ),
        decreases 12 - s,
    {
        let mut members: Vec<usize> = Vec::new();
        let mut k: usize = 0;
        while k < cats.len()
            invariant
                cats@ == b,
                s < 12,
                k <= cats.len(),
                forall|c: Category| slot_of(c) == s ==> members@ == members_upto(b, c, k as int),
            decreases cats.len() - k,
        {
            if cats[k].slot() == s {
                members.push(k);
            }
            k = k + 1;
        }
        slots.push(members);
        s = s + 1;
    }
    CategoryMap { slots }
}

} // verus!
