//! The generated boot menu: its entries, nested in submenus, and the selected one.
use crate::errors::{DCtx, DError, DResult};
use crate::text::{
    chars_of, find_char, find_in, join_with, split_lines, split_text, starts_with, starts_with_at,
    string_of, trim, trim_bounds, views, join_strings,
};
use vstd::prelude::*;

verus! {

/// What capture group 1 of the leftmost match of the regular expression `pattern` in
/// `text` holds, if the pattern compiles, matches, and the group takes part in the match.
pub uninterp spec fn regex_capture(pattern: Seq<char>, text: Seq<char>) -> Option<Seq<char>>;

/// Relies on `regex::Regex::new` and `regex::Regex::captures`: the pattern is compiled,
/// and the text of group 1 of its leftmost match in `text` is returned; the result
/// depends on the two texts alone.
#[verifier::external_body]
fn first_capture(pattern: &str, text: &str) -> (r: Option<String>)
    ensures
        match r {
            Some(c) => regex_capture(pattern@, text@) == Some(c@),
            None => regex_capture(pattern@, text@) is None,
        },
{
    match regex::Regex::new(pattern) {
        Ok(re) => match re.captures(text) {
            Some(caps) => match caps.get(1) {
                Some(m) => Some(m.as_str().to_string()),
                None => None,
            },
            None => None,
        },
        Err(_) => None,
    }
}

/// The pattern whose group 1 is the title of a `menuentry` line.
pub open spec fn entry_pattern() -> Seq<char> {
    "menuentry\\s+'([^']+)"@
}

/// The pattern whose group 1 is the title of a `submenu` line.
pub open spec fn submenu_pattern() -> Seq<char> {
    "submenu\\s+'([^']+)"@
}

/// The title that a trimmed menu line opens, as the patterns capture it.
pub open spec fn line_title(line: Seq<char>) -> Option<Seq<char>> {
    if starts_with(line, "}"@) {
        None
    } else if starts_with(line, "menuentry"@) {
        regex_capture(entry_pattern(), line)
    } else if starts_with(line, "submenu"@) {
        regex_capture(submenu_pattern(), line)
    } else {
        None
    }
}

/// A boot entry as a title and the titles of the submenus around it, outermost first.
pub type EntryView = (Seq<char>, Seq<Seq<char>>);

/// Where a scan of the menu stands.
pub struct ScanView {
    pub entries: Seq<EntryView>,
    pub submenus: Seq<Seq<char>>,
    pub menuentry_open: bool,
}

/// One trimmed line of the menu, given the title its pattern captured: `}` closes the open
/// entry if there is one and else the innermost submenu; `menuentry` opens an entry, kept
/// when a title was captured; `submenu` with a title opens a submenu.
pub open spec fn scan_step(st: ScanView, line: Seq<char>, title: Option<Seq<char>>) -> ScanView {
    if starts_with(line, "}"@) {
        if st.menuentry_open {
            ScanView { menuentry_open: false, ..st }
        } else if st.submenus.len() > 0 {
            ScanView { submenus: st.submenus.drop_last(), ..st }
        } else {
            st
        }
    } else if starts_with(line, "menuentry"@) {
        match title {
            Some(t) => ScanView {
                entries: st.entries.push((t, st.submenus)),
                menuentry_open: true,
                ..st
            },
            None => ScanView { menuentry_open: true, ..st },
        }
    } else if starts_with(line, "submenu"@) {
        match title {
            Some(t) => ScanView { submenus: st.submenus.push(t), ..st },
            None => st,
        }
    } else {
        st
    }
}

pub open spec fn scan_start() -> ScanView {
    ScanView { entries: Seq::empty(), submenus: Seq::empty(), menuentry_open: false }
}

/// The scan after the given lines, each trimmed.
pub open spec fn scan_lines(lines: Seq<Seq<char>>) -> ScanView
    decreases lines.len(),
{
    if lines.len() == 0 {
        scan_start()
    } else {
        let t = trim(lines.last());
        scan_step(scan_lines(lines.drop_last()), t, line_title(t))
    }
}

/// The entries of a menu text.
pub open spec fn menu_entries(contents: Seq<char>) -> Seq<EntryView> {
    scan_lines(split_lines(contents)).entries
}

/// One selectable entry of the boot menu.
#[derive(Debug)]
pub struct GrubBootEntry {
    /// The actual name of the entry
    entry: String,
    /// (nested) submenus
    submenus: Vec<String>,
}

impl View for GrubBootEntry {
    type V = EntryView;

    closed spec fn view(&self) -> EntryView {
        (self.entry@, views(self.submenus@))
    }
}

fn clone_strings(v: &Vec<String>) -> (r: Vec<String>)
    ensures
        r@ == v@,
{
    let mut r: Vec<String> = Vec::new();
    let mut i: usize = 0;
    while i < v.len()
        invariant
            i <= v@.len(),
            r@ == v@.subrange(0, i as int),
        decreases v@.len() - i,
    {
        r.push(v[i].clone());
        i = i + 1;
    }
    assert(v@.subrange(0, v@.len() as int) == v@);
    r
}

impl Clone for GrubBootEntry {
    fn clone(&self) -> (r: Self)
        ensures
            r@ == self@,
    {
        GrubBootEntry { entry: self.entry.clone(), submenus: clone_strings(&self.submenus) }
    }
}

/// The path of an entry: its submenus and its title, joined with `>`.
pub open spec fn full_path_of(e: EntryView) -> Seq<char> {
    if e.1.len() == 0 {
        e.0
    } else {
        join_with(e.1, '>') + seq!['>'] + e.0
    }
}

impl GrubBootEntry {
    fn new(entry: String, submenus: Vec<String>) -> (r: Self)
        ensures
            r@ == (entry@, views(submenus@)),
    {
        Self { entry, submenus }
    }

    pub fn entry(&self) -> (r: &str)
        ensures
            r@ == self@.0,
    {
        self.entry.as_str()
    }

    pub fn submenus(&self) -> (r: &[String])
        ensures
            views(r@) == self@.1,
    {
        self.submenus.as_slice()
    }

    pub fn full_path(&self) -> (r: String)
        ensures
            r@ == full_path_of(self@),
    {
        if self.submenus.len() == 0 {
            self.entry.clone()
        } else {
            let mut r = join_strings(&self.submenus, '>');
            r.push('>');
            r.append(self.entry.as_str());
            r
        }
    }

    /// The entries of a menu text, scanned line by line.
    pub fn parse_entries(contents: &str) -> (r: Vec<GrubBootEntry>)
        ensures
            r@.map_values(|e: GrubBootEntry| e@) == menu_entries(contents@),
    {
        let pieces = split_text(contents);
        let mut scanner = EntryScanner::new();
        let mut i: usize = 0;
        while i < pieces.len()
            invariant
                i <= pieces@.len(),
                views(pieces@) == split_lines(contents@),
                scanner@ == scan_lines(views(pieces@).subrange(0, i as int)),
            decreases pieces@.len() - i,
        {
            let chars = chars_of(pieces[i].as_str());
            let (lo, hi) = trim_bounds(&chars);
            let line = string_of(&chars, lo, hi);
            let title = if starts_with_at(&chars, lo, hi, "}") {
                None
            } else if starts_with_at(&chars, lo, hi, "menuentry") {
                first_capture("menuentry\\s+'([^']+)", line.as_str())
            } else if starts_with_at(&chars, lo, hi, "submenu") {
                first_capture("submenu\\s+'([^']+)", line.as_str())
            } else {
                None
            };
            let ghost pre = views(pieces@).subrange(0, i as int);
            let ghost next = views(pieces@).subrange(0, i + 1);
            assert(next.drop_last() == pre);
            assert(next.last() == pieces@[i as int]@);
            scanner.feed(line.as_str(), title);
            i = i + 1;
        }
        assert(views(pieces@).subrange(0, pieces@.len() as int) == views(pieces@));
        scanner.entries
    }
}

/// A left-to-right scan of the menu, fed one trimmed line at a time.
pub struct EntryScanner {
    entries: Vec<GrubBootEntry>,
    submenus: Vec<String>,
    menuentry_open: bool,
}

impl View for EntryScanner {
    type V = ScanView;

    closed spec fn view(&self) -> ScanView {
        ScanView {
            entries: self.entries@.map_values(|e: GrubBootEntry| e@),
            submenus: views(self.submenus@),
            menuentry_open: self.menuentry_open,
        }
    }
}

impl EntryScanner {
    pub fn new() -> (r: Self)
        ensures
            r@ == scan_start(),
    {
        let r = EntryScanner { entries: Vec::new(), submenus: Vec::new(), menuentry_open: false };
        assert(r@.entries == Seq::<EntryView>::empty());
        assert(r@.submenus == Seq::<Seq<char>>::empty());
        r
    }

    /// Takes one trimmed line and the title its pattern captured, if any.
    pub fn feed(&mut self, line: &str, title: Option<String>)
        ensures
            final(self)@ == scan_step(
                old(self)@,
                line@,
                match title {
                    Some(t) => Some(t@),
                    None => None,
                },
            ),
    {
        let chars = chars_of(line);
        let n = chars.len();
        assert(chars@.subrange(0, n as int) == line@);
        if starts_with_at(&chars, 0, n, "}") {
            if self.menuentry_open {
                self.menuentry_open = false;
            } else if self.submenus.len() > 0 {
                let _ = self.submenus.pop();
                assert(views(self.submenus@) == views(old(self).submenus@).drop_last());
            }
        } else if starts_with_at(&chars, 0, n, "menuentry") {
            self.menuentry_open = true;
            if let Some(t) = title {
                let e = GrubBootEntry::new(t, clone_strings(&self.submenus));
                self.entries.push(e);
                assert(self@.entries == old(self)@.entries.push(e@));
            }
        } else if starts_with_at(&chars, 0, n, "submenu") {
            if let Some(t) = title {
                self.submenus.push(t);
                assert(views(self.submenus@) == views(old(self).submenus@).push(t@));
            }
        }
        assert(self@ == scan_step(
            old(self)@,
            line@,
            match title {
                Some(t) => Some(t@),
                None => None,
            },
        ));
    }

    /// The entries found so far.
    pub fn entries(&self) -> (r: &[GrubBootEntry])
        ensures
            r@.map_values(|e: GrubBootEntry| e@) == self@.entries,
    {
        self.entries.as_slice()
    }
}

/// Value of a run of ASCII digits.
pub open spec fn digits_value(s: Seq<char>) -> nat
    decreases s.len(),
{
    if s.len() == 0 {
        0
    } else {
        digits_value(s.drop_last()) * 10 + (s.last() as nat - '0' as nat) as nat
    }
}

pub open spec fn all_digits(s: Seq<char>) -> bool {
    forall|i: int| 0 <= i < s.len() ==> '0' <= #[trigger] s[i] <= '9'
}

/// What `usize`'s `from_str` makes of `s`: an optional `+`, then at least one ASCII digit,
/// and a value that fits.
pub open spec fn index_value(s: Seq<char>) -> Option<usize> {
    let d = if s.len() > 0 && s[0] == '+' {
        s.drop_first()
    } else {
        s
    };
    if d.len() > 0 && all_digits(d) && digits_value(d) <= usize::MAX {
        Some(digits_value(d) as usize)
    } else {
        None
    }
}

proof fn lemma_digits_value_grows(s: Seq<char>, c: char)
    requires
        '0' <= c <= '9',
    ensures
        digits_value(s.push(c)) >= digits_value(s),
        digits_value(s.push(c)) == digits_value(s) * 10 + (c as nat - '0' as nat),
{
    assert(s.push(c).drop_last() == s);
}

/// Reads `v[lo..hi]` as a `usize`, as `str::parse::<usize>` does.
pub fn parse_index(v: &Vec<char>, lo: usize, hi: usize) -> (r: Option<usize>)
    requires
        lo <= hi <= v.len(),
    ensures
        r == index_value(v@.subrange(lo as int, hi as int)),
{
    let ghost s = v@.subrange(lo as int, hi as int);
    let mut start = lo;
    if lo < hi && v[lo] == '+' {
        start = lo + 1;
    }
    let ghost d = v@.subrange(start as int, hi as int);
    assert(d == (if s.len() > 0 && s[0] == '+' { s.drop_first() } else { s }));
    if start == hi {
        return None;
    }
    let mut acc: usize = 0;
    let mut overflow = false;
    let mut i = start;
    assert(v@.subrange(start as int, start as int) == Seq::<char>::empty());
    while i < hi
        invariant
            lo <= start <= i <= hi <= v.len(),
            d == v@.subrange(start as int, hi as int),
            s == v@.subrange(lo as int, hi as int),
            d == (if s.len() > 0 && s[0] == '+' { s.drop_first() } else { s }),
            d.len() > 0,
            all_digits(v@.subrange(start as int, i as int)),
            !overflow ==> acc == digits_value(v@.subrange(start as int, i as int)),
            overflow ==> digits_value(v@.subrange(start as int, i as int)) > usize::MAX,
        decreases hi - i,
    {
        let c = v[i];
        if !('0' <= c && c <= '9') {
            assert(!all_digits(d)) by {
                assert(d[i - start] == c);
            }
            return None;
        }
        let ghost pre = v@.subrange(start as int, i as int);
        assert(v@.subrange(start as int, i + 1) == pre.push(c));
        proof {
            lemma_digits_value_grows(pre, c);
        }
        let dv = digit_value(c);
        if !overflow {
            if acc > (usize::MAX - dv) / 10 {
                overflow = true;
            } else {
                acc = acc * 10 + dv;
            }
        }
        i = i + 1;
    }
    if overflow {
        None
    } else {
        Some(acc)
    }
}

fn digit_value(c: char) -> (r: usize)
    requires
        '0' <= c <= '9',
    ensures
        r == c as nat - '0' as nat,
        r <= 9,
{
    (c as u32 - '0' as u32) as usize
}

/// Index of the first line that starts with `saved_entry`, if any.
pub open spec fn saved_line(lines: Seq<Seq<char>>) -> Option<int>
    decreases lines.len(),
{
    if lines.len() == 0 {
        None
    } else {
        match saved_line(lines.drop_last()) {
            Some(i) => Some(i),
            None => if starts_with(lines.last(), "saved_entry"@) {
                Some(lines.len() - 1)
            } else {
                None
            },
        }
    }
}

/// How an environment record names the selected entry.
pub enum SavedEntry {
    /// No `saved_entry` line.
    Missing,
    /// A `saved_entry` line without `=`.
    NoEquals,
    /// A `saved_entry` line with nothing after `=` but whitespace.
    NoValue,
    /// An index into the entries.
    Index(usize),
    /// The title of an entry.
    Name(Seq<char>),
}

/// What the `saved_entry` line of an environment record says.
pub open spec fn saved_entry(env: Seq<char>) -> SavedEntry {
    let lines = split_lines(env);
    match saved_line(lines) {
        None => SavedEntry::Missing,
        Some(i) => match find_char(lines[i], '=') {
            None => SavedEntry::NoEquals,
            Some(e) => {
                let value = trim(lines[i].subrange(e as int + 1, lines[i].len() as int));
                if value.len() == 0 {
                    SavedEntry::NoValue
                } else {
                    match index_value(value) {
                        Some(k) => SavedEntry::Index(k),
                        None => SavedEntry::Name(value),
                    }
                }
            },
        },
    }
}

/// The first entry whose title is `name`, if any.
pub open spec fn first_titled(entries: Seq<EntryView>, name: Seq<char>) -> Option<int>
    decreases entries.len(),
{
    if entries.len() == 0 {
        None
    } else {
        match first_titled(entries.drop_last(), name) {
            Some(i) => Some(i),
            None => if entries.last().0 == name {
                Some(entries.len() - 1)
            } else {
                None
            },
        }
    }
}

proof fn lemma_first_titled_range(entries: Seq<EntryView>, name: Seq<char>)
    ensures
        match first_titled(entries, name) {
            Some(i) => 0 <= i < entries.len() && entries[i].0 == name,
            None => true,
        },
    decreases entries.len(),
{
    if entries.len() > 0 {
        lemma_first_titled_range(entries.drop_last(), name);
    }
}

proof fn lemma_saved_line_range(lines: Seq<Seq<char>>)
    ensures
        match saved_line(lines) {
            Some(i) => 0 <= i < lines.len() && starts_with(lines[i], "saved_entry"@),
            None => true,
        },
    decreases lines.len(),
{
    if lines.len() > 0 {
        lemma_saved_line_range(lines.drop_last());
    }
}

/// Position of the selected entry, for a record that names one well-formed.
pub open spec fn selected_index(entries: Seq<EntryView>, saved: SavedEntry) -> Option<int> {
    match saved {
        SavedEntry::Index(k) => if k < entries.len() {
            Some(k as int)
        } else {
            None
        },
        SavedEntry::Name(name) => first_titled(entries, name),
        _ => None,
    }
}

/// The entries of the boot menu and the one selected to boot.
pub struct GrubBootEntries {
    entries: Vec<GrubBootEntry>,
    selected: Option<GrubBootEntry>,
}

impl View for GrubBootEntries {
    type V = (Seq<EntryView>, Option<EntryView>);

    closed spec fn view(&self) -> (Seq<EntryView>, Option<EntryView>) {
        (
            self.entries@.map_values(|e: GrubBootEntry| e@),
            match self.selected {
                Some(e) => Some(e@),
                None => None,
            },
        )
    }
}

impl GrubBootEntries {
    /// The entries of the menu text `menu`, with the selection that the environment
    /// record `env` names.
    pub fn new(menu: &str, env: &str) -> (r: DResult<Self>)
        ensures
            match saved_entry(env@) {
                SavedEntry::NoEquals => r is Err && r->Err_0.kind() is GrubParse
                    && r->Err_0.kind()->GrubParse_0@
                    == "Malformed grubenv. Expected '=' after saved_entry"@,
                SavedEntry::NoValue => r is Err && r->Err_0.kind() is GrubParse
                    && r->Err_0.kind()->GrubParse_0@
                    == "Malformed grubenv. Expected value after saved_entry"@,
                saved => r is Ok && r->Ok_0@.0 == menu_entries(menu@) && r->Ok_0@.1 == match selected_index(
                    menu_entries(menu@),
                    saved,
                ) {
                    Some(i) => Some(menu_entries(menu@)[i]),
                    None => None,
                },
            },
    {
        let entries = GrubBootEntry::parse_entries(menu);
        proof {
            if let SavedEntry::Name(nm) = saved_entry(env@) {
                lemma_first_titled_range(menu_entries(menu@), nm);
            }
        }
        match resolve_selected(&entries, env) {
            Ok(selected) => {
                let r = GrubBootEntries { entries, selected };
                assert(r@.0 == menu_entries(menu@));
                assert(forall|i: int| 0 <= i < r@.0.len() ==> r@.0[i] == r.entries@[i]@);
                Ok(r)
            },
            Err(e) => Err(e),
        }
    }

    pub fn entry_names(&self) -> (r: Vec<&str>)
        ensures
            r@.len() == self@.0.len(),
            forall|i: int| 0 <= i < r@.len() ==> (#[trigger] r@[i])@ == self@.0[i].0,
    {
        let mut r: Vec<&str> = Vec::new();
        let mut i: usize = 0;
        while i < self.entries.len()
            invariant
                i <= self.entries@.len(),
                r@.len() == i,
                forall|j: int| 0 <= j < i ==> (#[trigger] r@[j])@ == self@.0[j].0,
            decreases self.entries@.len() - i,
        {
            r.push(self.entries[i].entry());
            i = i + 1;
        }
        r
    }

    pub fn entries(&self) -> (r: &[GrubBootEntry])
        ensures
            r@.map_values(|e: GrubBootEntry| e@) == self@.0,
    {
        self.entries.as_slice()
    }

    /// The title of the selected entry, if one is selected.
    pub fn selected(&self) -> (r: Option<&str>)
        ensures
            match self@.1 {
                Some(e) => r is Some && r->0@ == e.0,
                None => r is None,
            },
    {
        match &self.selected {
            Some(selected) => Some(selected.entry()),
            None => None,
        }
    }

    /// Whether some entry has the title `name`.
    pub fn has_entry(&self, name: &str) -> (r: bool)
        ensures
            r == exists|i: int| 0 <= i < self@.0.len() && (#[trigger] self@.0[i]).0 == name@,
    {
        let mut i: usize = 0;
        while i < self.entries.len()
            invariant
                i <= self.entries@.len(),
                forall|j: int| 0 <= j < i ==> (#[trigger] self@.0[j]).0 != name@,
            decreases self.entries@.len() - i,
        {
            assert(self@.0[i as int] == self.entries@[i as int]@);
            if str_eq(self.entries[i].entry(), name) {
                return true;
            }
            i = i + 1;
        }
        false
    }
}

fn str_eq(a: &str, b: &str) -> (r: bool)
    ensures
        r == (a@ == b@),
{
    let x = String::from_str(a);
    let y = String::from_str(b);
    x == y
}

/// The entry that the environment record `env` selects among `entries`.
pub fn resolve_selected(entries: &Vec<GrubBootEntry>, env: &str) -> (r: DResult<Option<GrubBootEntry>>)
    ensures
        match saved_entry(env@) {
            SavedEntry::NoEquals => r is Err && r->Err_0.kind() is GrubParse
                && r->Err_0.kind()->GrubParse_0@
                == "Malformed grubenv. Expected '=' after saved_entry"@,
            SavedEntry::NoValue => r is Err && r->Err_0.kind() is GrubParse
                && r->Err_0.kind()->GrubParse_0@
                == "Malformed grubenv. Expected value after saved_entry"@,
            saved => r is Ok && match selected_index(entries@.map_values(|e: GrubBootEntry| e@), saved) {
                Some(i) => r->Ok_0 is Some && r->Ok_0->0@ == entries@[i]@,
                None => r->Ok_0 is None,
            },
        },
{
    let ghost ev = entries@.map_values(|e: GrubBootEntry| e@);
    let lines = split_text(env);
    let ghost ls = split_lines(env@);
    let mut i: usize = 0;
    while i < lines.len()
        invariant
            i <= lines@.len(),
            views(lines@) == ls,
            ls == split_lines(env@),
            saved_line(ls.subrange(0, i as int)) is None,
        decreases lines@.len() - i,
    {
        assert(ls.subrange(0, i + 1).drop_last() == ls.subrange(0, i as int));
        let chars = chars_of(lines[i].as_str());
        let n = chars.len();
        assert(chars@.subrange(0, n as int) == ls[i as int]);
        if starts_with_at(&chars, 0, n, "saved_entry") {
            assert(saved_line(ls.subrange(0, i + 1)) == Some(i as int));
            proof {
                lemma_saved_line_prefix(ls, i + 1);
            }
            assert(saved_line(ls) == Some(i as int));
            let eq = match find_in(&chars, 0, n, '=') {
                Some(eq) => eq,
                None => {
                    return Err(DError::grub_parse_error(
                        DCtx::new(String::from_str("GrubBootEntries::new")),
                        String::from_str("Malformed grubenv. Expected '=' after saved_entry"),
                    ));
                },
            };
            let (lo, hi) = trim_bounds_in(&chars, eq + 1, n);
            if lo == hi {
                return Err(DError::grub_parse_error(
                    DCtx::new(String::from_str("GrubBootEntries::new")),
                    String::from_str("Malformed grubenv. Expected value after saved_entry"),
                ));
            }
            let selected = match parse_index(&chars, lo, hi) {
                Some(k) => {
                    if k < entries.len() {
                        Some(entries[k].clone())
                    } else {
                        None
                    }
                },
                None => {
                    let name = string_of(&chars, lo, hi);
                    first_with_title(entries, name.as_str())
                },
            };
            return Ok(selected);
        }
        i = i + 1;
    }
    assert(ls.subrange(0, lines@.len() as int) == ls);
    Ok(None)
}

proof fn lemma_saved_line_prefix(ls: Seq<Seq<char>>, k: int)
    requires
        0 <= k <= ls.len(),
        saved_line(ls.subrange(0, k)) is Some,
    ensures
        saved_line(ls) == saved_line(ls.subrange(0, k)),
    decreases ls.len() - k,
{
    if k < ls.len() {
        assert(ls.subrange(0, k + 1).drop_last() == ls.subrange(0, k));
        lemma_saved_line_prefix(ls, k + 1);
    } else {
        assert(ls.subrange(0, k) == ls);
    }
}

proof fn lemma_first_titled_prefix(es: Seq<EntryView>, name: Seq<char>, k: int)
    requires
        0 <= k <= es.len(),
        first_titled(es.subrange(0, k), name) is Some,
    ensures
        first_titled(es, name) == first_titled(es.subrange(0, k), name),
    decreases es.len() - k,
{
    if k < es.len() {
        assert(es.subrange(0, k + 1).drop_last() == es.subrange(0, k));
        lemma_first_titled_prefix(es, name, k + 1);
    } else {
        assert(es.subrange(0, k) == es);
    }
}

/// Bounds of `v[lo..hi]` trimmed of surrounding whitespace.
fn trim_bounds_in(v: &Vec<char>, lo: usize, hi: usize) -> (r: (usize, usize))
    requires
        lo <= hi <= v.len(),
    ensures
        lo <= r.0 <= r.1 <= hi,
        v@.subrange(r.0 as int, r.1 as int) == trim(v@.subrange(lo as int, hi as int)),
{
    let w = copy_range(v, lo, hi);
    let (a, b) = trim_bounds(&w);
    assert(w@.subrange(a as int, b as int) == v@.subrange(lo + a, lo + b));
    (lo + a, lo + b)
}

fn copy_range(v: &Vec<char>, lo: usize, hi: usize) -> (r: Vec<char>)
    requires
        lo <= hi <= v.len(),
    ensures
        r@ == v@.subrange(lo as int, hi as int),
{
    let mut r: Vec<char> = Vec::new();
    let mut i = lo;
    while i < hi
        invariant
            lo <= i <= hi <= v.len(),
            r@ == v@.subrange(lo as int, i as int),
        decreases hi - i,
    {
        r.push(v[i]);
        i = i + 1;
    }
    r
}

/// A copy of the first entry titled `name`, if any.
fn first_with_title(entries: &Vec<GrubBootEntry>, name: &str) -> (r: Option<GrubBootEntry>)
    ensures
        match first_titled(entries@.map_values(|e: GrubBootEntry| e@), name@) {
            Some(i) => r is Some && r->0@ == entries@[i]@,
            None => r is None,
        },
{
    let ghost ev = entries@.map_values(|e: GrubBootEntry| e@);
    let mut i: usize = 0;
    while i < entries.len()
        invariant
            i <= entries@.len(),
            ev == entries@.map_values(|e: GrubBootEntry| e@),
            first_titled(ev.subrange(0, i as int), name@) is None,
        decreases entries@.len() - i,
    {
        assert(ev.subrange(0, i + 1).drop_last() == ev.subrange(0, i as int));
        if str_eq(entries[i].entry(), name) {
            assert(ev[i as int].0 == name@);
            assert(first_titled(ev.subrange(0, i + 1), name@) == Some(i as int));
            proof {
                lemma_first_titled_prefix(ev, name@, i + 1);
            }
            return Some(entries[i].clone());
        }
        i = i + 1;
    }
    assert(ev.subrange(0, entries@.len() as int) == ev);
    None
}

} // verus!
