//! The key-value configuration file, kept line by line.
use crate::errors::{DCtx, DError, DResult};
use crate::text::{
    chars_of, decimal, find_char, find_in, join_lines, join_text, lemma_join_split, push_decimal,
    split_lines, split_text, string_of, string_without_quotes, strip_quotes, trim, trim_bounds,
    views,
};
use vstd::prelude::*;

verus! {

/// A `KEY=VALUE` line: where it stood, its text as read, whether it was changed since,
/// and the key and value (the value without quote characters).
#[derive(Debug)]
pub struct KeyValue {
    pub line: usize,
    pub original: String,
    pub changed: bool,
    pub key: String,
    pub value: String,
}

impl Clone for KeyValue {
    fn clone(&self) -> (r: Self)
        ensures
            r == *self,
    {
        KeyValue {
            line: self.line,
            original: self.original.clone(),
            changed: self.changed,
            key: self.key.clone(),
            value: self.value.clone(),
        }
    }
}

/// One line of the file: a key-value entry, or any other text kept as it is.
#[derive(Debug)]
pub enum GrubLine {
    KeyValue(KeyValue),
    String { raw_line: String },
}

impl Clone for GrubLine {
    fn clone(&self) -> (r: Self)
        ensures
            r == *self,
    {
        match self {
            GrubLine::KeyValue(kv) => GrubLine::KeyValue(kv.clone()),
            GrubLine::String { raw_line } => GrubLine::String { raw_line: raw_line.clone() },
        }
    }
}

/// The text a key-value entry is written back as: as read, or `key="value"` once changed.
pub open spec fn kv_text(kv: KeyValue) -> Seq<char> {
    if kv.changed {
        kv.key@ + "=\""@ + kv.value@ + "\""@
    } else {
        kv.original@
    }
}

pub open spec fn line_text(l: GrubLine) -> Seq<char> {
    match l {
        GrubLine::KeyValue(kv) => kv_text(kv),
        GrubLine::String { raw_line } => raw_line@,
    }
}

/// The file text of a sequence of lines.
pub open spec fn render(ls: Seq<GrubLine>) -> Seq<char> {
    join_lines(ls.map_values(|l: GrubLine| line_text(l)))
}

pub open spec fn has_key(l: GrubLine, key: Seq<char>) -> bool {
    l is KeyValue && l->KeyValue_0.key@ == key
}

/// `p` is the last line of `ls` that holds `key`.
pub open spec fn last_with_key(ls: Seq<GrubLine>, key: Seq<char>, p: int) -> bool {
    &&& 0 <= p < ls.len()
    &&& has_key(ls[p], key)
    &&& forall|q: int| p < q < ls.len() ==> !has_key(#[trigger] ls[q], key)
}

pub open spec fn key_absent(ls: Seq<GrubLine>, key: Seq<char>) -> bool {
    forall|q: int| 0 <= q < ls.len() ==> !has_key(#[trigger] ls[q], key)
}

/// `kv` is the entry on the last line of `ls` that holds its key.
pub open spec fn is_current_entry(ls: Seq<GrubLine>, kv: KeyValue) -> bool {
    exists|p: int| last_with_key(ls, kv.key@, p) && ls[p] == GrubLine::KeyValue(kv)
}

pub open spec fn key_listed(kvs: Seq<KeyValue>, key: Seq<char>) -> bool {
    exists|a: int| 0 <= a < kvs.len() && kvs[a].key@ == key
}

/// A line is kept as opaque text when, trimmed, it is empty or starts with `#`.
pub open spec fn is_opaque_line(line: Seq<char>) -> bool {
    trim(line).len() == 0 || trim(line)[0] == '#'
}

/// Key and value of a non-opaque line: the trimmed text is cut at its first `=`.
pub open spec fn parse_kv(line: Seq<char>) -> Option<(Seq<char>, Seq<char>)> {
    let t = trim(line);
    match find_char(t, '=') {
        Some(i) => Some((t.subrange(0, i as int), strip_quotes(t.subrange(i as int + 1, t.len() as int)))),
        None => None,
    }
}

pub open spec fn line_ok(line: Seq<char>) -> bool {
    is_opaque_line(line) || parse_kv(line) is Some
}

/// `l` is what line number `idx` (from zero), with text `line`, is read as.
pub open spec fn parsed_as(l: GrubLine, idx: nat, line: Seq<char>) -> bool {
    if is_opaque_line(line) {
        l is String && l->raw_line@ == line
    } else {
        &&& l is KeyValue
        &&& l->KeyValue_0.line == idx
        &&& l->KeyValue_0.original@ == line
        &&& !l->KeyValue_0.changed
        &&& parse_kv(line) == Some((l->KeyValue_0.key@, l->KeyValue_0.value@))
    }
}

/// `g` is what the text `text` is read as, line by line.
pub open spec fn parsed_file(text: Seq<char>, g: Seq<GrubLine>) -> bool {
    &&& g.len() == split_lines(text).len()
    &&& forall|i: int| 0 <= i < g.len() ==> parsed_as(#[trigger] g[i], i as nat, split_lines(text)[i])
}

/// The message of the error for a line without `=`; `number` counts from one.
pub open spec fn missing_equals_message(number: nat) -> Seq<char> {
    "Expected '=' on line: "@ + decimal(number)
}

/// The entry after setting its value to `value`: marked changed only when the value differs.
pub open spec fn updated(old: KeyValue, new: KeyValue, value: Seq<char>) -> bool {
    if old.value@ == value {
        new == old
    } else {
        &&& new.line == old.line
        &&& new.original == old.original
        &&& new.key == old.key
        &&& new.changed
        &&& new.value@ == value
    }
}

impl KeyValue {
    /// A new entry, changed from the start, with no original text.
    pub fn from_key_val(line: usize, key: String, value: String) -> (r: Self)
        ensures
            r.line == line,
            r.original@ == Seq::<char>::empty(),
            r.changed,
            r.key == key,
            r.value == value,
    {
        KeyValue { line, original: String::new(), changed: true, key, value }
    }

    /// Sets the value; the entry is marked changed only when the value differs.
    pub fn update(&mut self, value: String)
        ensures
            updated(*old(self), *final(self), value@),
    {
        if self.value != value {
            self.changed = true;
            self.value = value;
        }
    }

    /// The text the entry is written back as.
    pub fn to_line(&self) -> (r: String)
        ensures
            r@ == kv_text(*self),
    {
        if self.changed {
            let mut r = self.key.clone();
            r.append("=\"");
            r.append(self.value.as_str());
            r.append("\"");
            r
        } else {
            self.original.clone()
        }
    }

    fn new(line: usize, original: &str) -> (r: DResult<Self>)
        requires
            line < usize::MAX,
        ensures
            match parse_kv(original@) {
                Some((k, v)) => r is Ok && r->Ok_0.line == line && r->Ok_0.original@ == original@
                    && !r->Ok_0.changed && r->Ok_0.key@ == k && r->Ok_0.value@ == v,
                None => r is Err && r->Err_0.kind() is GrubParse
                    && r->Err_0.kind()->GrubParse_0@ == missing_equals_message((line + 1) as nat),
            },
    {
        let chars = chars_of(original);
        let (lo, hi) = trim_bounds(&chars);
        match find_in(&chars, lo, hi, '=') {
            Some(eq) => {
                let ghost t = chars@.subrange(lo as int, hi as int);
                assert(t.subrange(0, eq - lo) =~= chars@.subrange(lo as int, eq as int));
                assert(t.subrange(eq - lo + 1, t.len() as int) =~= chars@.subrange(
                    eq + 1,
                    hi as int,
                ));
                Ok(KeyValue {
                    line,
                    original: String::from_str(original),
                    changed: false,
                    key: string_of(&chars, lo, eq),
                    value: string_without_quotes(&chars, eq + 1, hi),
                })
            },
            None => {
                let mut message = String::from_str("Expected '=' on line: ");
                push_decimal(&mut message, line + 1);
                Err(DError::grub_parse_error(DCtx::new(String::from_str("KeyValue::parse")), message))
            },
        }
    }
}

/// Whether the trimmed text `chars[lo..hi]` makes an opaque line.
fn opaque_trimmed(chars: &Vec<char>, lo: usize, hi: usize) -> (r: bool)
    requires
        lo <= hi <= chars.len(),
    ensures
        r == (chars@.subrange(lo as int, hi as int).len() == 0 || chars@.subrange(
            lo as int,
            hi as int,
        )[0] == '#'),
{
    lo == hi || chars[lo] == '#'
}

/// The configuration file as a sequence of lines.
#[derive(Debug)]
pub struct GrubFile {
    lines: Vec<GrubLine>,
}

impl View for GrubFile {
    type V = Seq<GrubLine>;

    closed spec fn view(&self) -> Seq<GrubLine> {
        self.lines@
    }
}

impl GrubFile {
    /// Reads the file text, split at each `'\n'`.
    pub fn new(file: &str) -> (r: DResult<Self>)
        ensures
            match r {
                Ok(g) => {
                    &&& forall|i: int|
                        0 <= i < split_lines(file@).len() ==> line_ok(
                            #[trigger] split_lines(file@)[i],
                        )
                    &&& parsed_file(file@, g@)
                    &&& render(g@) == file@
                },
                Err(e) => exists|k: int|
                    {
                        &&& 0 <= k < split_lines(file@).len()
                        &&& !line_ok(#[trigger] split_lines(file@)[k])
                        &&& forall|j: int| 0 <= j < k ==> line_ok(#[trigger] split_lines(file@)[j])
                        &&& e.kind() is GrubParse
                        &&& e.kind()->GrubParse_0@ == missing_equals_message((k + 1) as nat)
                    },
            },
    {
        let pieces = split_text(file);
        let ghost ls = split_lines(file@);
        let mut lines: Vec<GrubLine> = Vec::new();
        let mut idx: usize = 0;
        while idx < pieces.len()
            invariant
                idx <= pieces.len(),
                views(pieces@) == ls,
                ls == split_lines(file@),
                lines@.len() == idx,
                forall|i: int| 0 <= i < idx ==> line_ok(#[trigger] ls[i]),
                forall|i: int| 0 <= i < idx ==> parsed_as(#[trigger] lines@[i], i as nat, ls[i]),
            decreases pieces.len() - idx,
        {
            let chars = chars_of(pieces[idx].as_str());
            let (lo, hi) = trim_bounds(&chars);
            assert(ls[idx as int] == pieces@[idx as int]@);
            assert(trim(ls[idx as int]) == chars@.subrange(lo as int, hi as int));
            if opaque_trimmed(&chars, lo, hi) {
                lines.push(GrubLine::String { raw_line: pieces[idx].clone() });
            } else {
                match KeyValue::new(idx, pieces[idx].as_str()) {
                    Ok(kv) => {
                        lines.push(GrubLine::KeyValue(kv));
                    },
                    Err(e) => {
                        assert(!line_ok(ls[idx as int]));
                        return Err(e);
                    },
                }
            }
            idx = idx + 1;
        }
        proof {
            lemma_render_parsed(file@, lines@);
        }
        Ok(GrubFile { lines })
    }

    /// Sets `key` to `value`. The last line holding `key` is updated in place, and is
    /// marked changed only when the value differs; without such a line, a changed entry is
    /// added at the end.
    pub fn set_key_value(&mut self, key: &str, value: &str)
        ensures
            forall|p: int|
                last_with_key(old(self)@, key@, p) ==> {
                    &&& final(self)@.len() == old(self)@.len()
                    &&& forall|q: int|
                        0 <= q < old(self)@.len() && q != p ==> final(self)@[q] == old(self)@[q]
                    &&& final(self)@[p] is KeyValue
                    &&& updated(old(self)@[p]->KeyValue_0, final(self)@[p]->KeyValue_0, value@)
                },
            forall|p: int|
                last_with_key(old(self)@, key@, p) && old(self)@[p]->KeyValue_0.value@ == value@
                    ==> final(self)@ == old(self)@,
            key_absent(old(self)@, key@) ==> {
                &&& final(self)@.len() == old(self)@.len() + 1
                &&& final(self)@.subrange(0, old(self)@.len() as int) == old(self)@
                &&& final(self)@.last() is KeyValue
                &&& final(self)@.last()->KeyValue_0.line == old(self)@.len()
                &&& final(self)@.last()->KeyValue_0.original@ == Seq::<char>::empty()
                &&& final(self)@.last()->KeyValue_0.changed
                &&& final(self)@.last()->KeyValue_0.key@ == key@
                &&& final(self)@.last()->KeyValue_0.value@ == value@
            },
            key_absent(old(self)@, key@) && old(self)@.len() > 0 ==> render(final(self)@) == render(
                old(self)@,
            ) + "\n"@ + key@ + "=\""@ + value@ + "\""@,
    {
        let key_s = String::from_str(key);
        let value_s = String::from_str(value);
        let n = self.lines.len();
        let mut i = n;
        while i > 0
            invariant
                i <= n == self.lines@.len(),
                self.lines@ == old(self).lines@,
                key_s@ == key@,
                value_s@ == value@,
                forall|q: int| i <= q < n ==> !has_key(#[trigger] self.lines@[q], key@),
            decreases i,
        {
            i = i - 1;
            let found = match &self.lines[i] {
                GrubLine::KeyValue(kv) => kv.key == key_s,
                GrubLine::String { .. } => false,
            };
            if found {
                assert(last_with_key(old(self)@, key@, i as int));
                if let GrubLine::KeyValue(kv) = &self.lines[i] {
                    if kv.value != value_s {
                        let mut next = kv.clone();
                        next.update(value_s);
                        self.lines.set(i, GrubLine::KeyValue(next));
                    }
                }
                return ;
            }
        }
        assert(key_absent(old(self)@, key@));
        let kv = KeyValue::from_key_val(n, key_s, value_s);
        let ghost l = GrubLine::KeyValue(kv);
        self.lines.push(GrubLine::KeyValue(kv));
        proof {
            assert(self.lines@.subrange(0, n as int) == old(self)@);
            assert(self.lines@ == old(self)@.push(l));
            if n > 0 {
                lemma_render_push(old(self)@, l);
            }
        }
    }

    /// A file holding a copy of the given lines, as they are.
    pub fn from_lines(grub_lines: &[GrubLine]) -> (r: Self)
        ensures
            r@ == grub_lines@,
    {
        let mut lines: Vec<GrubLine> = Vec::new();
        let mut i: usize = 0;
        while i < grub_lines.len()
            invariant
                i <= grub_lines@.len(),
                lines@ == grub_lines@.subrange(0, i as int),
            decreases grub_lines@.len() - i,
        {
            lines.push(grub_lines[i].clone());
            i = i + 1;
        }
        assert(grub_lines@.subrange(0, grub_lines@.len() as int) == grub_lines@);
        GrubFile { lines }
    }

    /// One entry per key of the file: the one on the last line that holds the key.
    pub fn keyvalues(&self) -> (r: Vec<KeyValue>)
        ensures
            forall|i: int, j: int| 0 <= i < j < r@.len() ==> r@[i].key@ != r@[j].key@,
            forall|i: int| 0 <= i < r@.len() ==> is_current_entry(self@, #[trigger] r@[i]),
            forall|q: int|
                0 <= q < self@.len() && (#[trigger] self@[q]) is KeyValue ==> key_listed(
                    r@,
                    self@[q]->KeyValue_0.key@,
                ),
    {
        let n = self.lines.len();
        let mut r: Vec<KeyValue> = Vec::new();
        let ghost mut pos: Seq<int> = Seq::empty();
        let mut i = n;
        while i > 0
            invariant
                i <= n == self.lines@.len(),
                pos.len() == r@.len(),
                forall|a: int, b: int| 0 <= a < b < r@.len() ==> r@[a].key@ != r@[b].key@,
                forall|a: int|
                    0 <= a < r@.len() ==> last_with_key(self@, r@[a].key@, #[trigger] pos[a])
                        && self@[pos[a]] == GrubLine::KeyValue(r@[a]),
                forall|q: int|
                    i <= q < n && (#[trigger] self@[q]) is KeyValue ==> key_listed(
                        r@,
                        self@[q]->KeyValue_0.key@,
                    ),
            decreases i,
        {
            i = i - 1;
            if let GrubLine::KeyValue(kv) = &self.lines[i] {
                if !contains_key(&r, &kv.key) {
                    assert forall|q: int| i < q < n implies !has_key(#[trigger] self@[q], kv.key@) by {
                        if has_key(self@[q], kv.key@) {
                            let a = choose|a: int|
                                0 <= a < r@.len() && r@[a].key@ == self@[q]->KeyValue_0.key@;
                        }
                    }
                    let ghost old_r = r@;
                    r.push(kv.clone());
                    proof {
                        pos = pos.push(i as int);
                        assert forall|q: int|
                            i <= q < n && (#[trigger] self@[q]) is KeyValue implies key_listed(
                            r@,
                            self@[q]->KeyValue_0.key@,
                        ) by {
                            if q == i {
                                assert(r@[r@.len() - 1].key@ == self@[q]->KeyValue_0.key@);
                            } else {
                                let a = choose|a: int|
                                    0 <= a < old_r.len() && old_r[a].key@
                                        == self@[q]->KeyValue_0.key@;
                                assert(r@[a] == old_r[a]);
                            }
                        }
                    }
                }
            }
        }
        proof {
            assert forall|a: int| 0 <= a < r@.len() implies is_current_entry(self@, #[trigger] r@[a]) by {
                assert(last_with_key(self@, r@[a].key@, pos[a]));
            }
        }
        r
    }

    pub fn lines(&self) -> (r: &[GrubLine])
        ensures
            r@ == self@,
    {
        self.lines.as_slice()
    }

    /// The file text: the lines joined with `'\n'`.
    pub fn as_string(&self) -> (r: String)
        ensures
            r@ == render(self@),
    {
        let mut texts: Vec<String> = Vec::new();
        let mut i: usize = 0;
        while i < self.lines.len()
            invariant
                i <= self.lines@.len(),
                views(texts@) == self.lines@.subrange(0, i as int).map_values(
                    |l: GrubLine| line_text(l),
                ),
            decreases self.lines@.len() - i,
        {
            let t = line_string(&self.lines[i]);
            let ghost prev = views(texts@);
            texts.push(t);
            assert(views(texts@) =~= prev.push(t@));
            i = i + 1;
            assert(views(texts@) =~= self.lines@.subrange(0, i as int).map_values(
                |l: GrubLine| line_text(l),
            ));
        }
        assert(self.lines@.subrange(0, i as int) == self.lines@);
        join_text(&texts)
    }
}

proof fn lemma_render_push(ls: Seq<GrubLine>, l: GrubLine)
    requires
        ls.len() > 0,
    ensures
        render(ls.push(l)) == render(ls) + "\n"@ + line_text(l),
{
    let m = ls.push(l).map_values(|x: GrubLine| line_text(x));
    assert(m.drop_last() == ls.map_values(|x: GrubLine| line_text(x)));
    reveal_strlit("\n");
    assert(seq!['\n'] == "\n"@);
}

/// The lines read from a text write back to that text while none is changed.
proof fn lemma_render_parsed(text: Seq<char>, g: Seq<GrubLine>)
    requires
        g.len() == split_lines(text).len(),
        forall|i: int| 0 <= i < g.len() ==> parsed_as(#[trigger] g[i], i as nat, split_lines(text)[i]),
    ensures
        render(g) == text,
{
    let m = g.map_values(|x: GrubLine| line_text(x));
    assert forall|i: int| 0 <= i < m.len() implies m[i] == split_lines(text)[i] by {
        assert(parsed_as(g[i], i as nat, split_lines(text)[i]));
    }
    assert(m == split_lines(text));
    lemma_join_split(text);
}

fn contains_key(r: &Vec<KeyValue>, key: &String) -> (b: bool)
    ensures
        b == key_listed(r@, key@),
{
    let mut i: usize = 0;
    while i < r.len()
        invariant
            i <= r@.len(),
            forall|a: int| 0 <= a < i ==> r@[a].key@ != key@,
        decreases r@.len() - i,
    {
        if r[i].key == *key {
            return true;
        }
        i = i + 1;
    }
    false
}

fn line_string(l: &GrubLine) -> (r: String)
    ensures
        r@ == line_text(*l),
{
    match l {
        GrubLine::KeyValue(kv) => kv.to_line(),
        GrubLine::String { raw_line } => raw_line.clone(),
    }
}

} // verus!
