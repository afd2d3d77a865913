use vstd::prelude::*;
use crate::text::{
    index_of, trim, all_digits, digits_value, chars_of, find_char, trim_bounds, parse_digits,
    lemma_index_of_bound,
};

verus! {

/// One `key=value` setting and the section it was read in.
pub type Assignment = (Seq<char>, Seq<char>, Seq<char>);

/// A trimmed line that is skipped: empty, or a `;` or `#` comment.
pub open spec fn is_blank_or_comment(l: Seq<char>) -> bool {
    l.len() == 0 || l[0] == ';' || l[0] == '#'
}

/// A trimmed line of the form `[name]`.
pub open spec fn is_section_header(l: Seq<char>) -> bool {
    l.len() >= 2 && l[0] == '[' && l.last() == ']'
}

/// The settings that `text` makes, in order, when reading starts in section `section`.
/// Lines are split at `\n` and trimmed; a header line switches the section; a line with `=`
/// sets the trimmed text before the first `=` to the trimmed text after it; other lines are
/// ignored.
pub open spec fn assignments(section: Seq<char>, text: Seq<char>) -> Seq<Assignment>
    decreases text.len(),
{
    let n = index_of(text, '\n');
    let l = trim(text.take(n as int));
    let p = index_of(l, '=');
    let next_section = if !is_blank_or_comment(l) && is_section_header(l) {
        l.subrange(1, l.len() - 1)
    } else {
        section
    };
    let here: Seq<Assignment> = if !is_blank_or_comment(l) && !is_section_header(l) && p < l.len() {
        seq![(section, trim(l.take(p as int)), trim(l.skip(p as int + 1)))]
    } else {
        Seq::empty()
    };
    if n < text.len() {
        here + assignments(next_section, text.skip(n as int + 1))
    } else {
        here
    }
}

/// The value most recently set for `key` in `section`.
pub open spec fn lookup(a: Seq<Assignment>, section: Seq<char>, key: Seq<char>) -> Option<Seq<char>>
    decreases a.len(),
{
    if a.len() == 0 {
        None
    } else if a.last().0 == section && a.last().1 == key {
        Some(a.last().2)
    } else {
        lookup(a.drop_last(), section, key)
    }
}

/// The value of a decimal integer with an optional sign, if it fits in `i32`.
pub open spec fn i32_value(v: Seq<char>) -> Option<int> {
    if v.len() > 0 && v[0] == '-' {
        if all_digits(v.drop_first()) && digits_value(v.drop_first()) <= 0x8000_0000 {
            Some(-digits_value(v.drop_first()))
        } else {
            None
        }
    } else {
        let d = if v.len() > 0 && v[0] == '+' { v.drop_first() } else { v };
        if all_digits(d) && digits_value(d) <= 0x7fff_ffff {
            Some(digits_value(d) as int)
        } else {
            None
        }
    }
}

/// Reads a decimal integer with an optional sign, as `i32`.
pub fn parse_i32(v: &str) -> (r: Option<i32>)
    ensures
        match r {
            Some(x) => i32_value(v@) == Some(x as int),
            None => i32_value(v@) is None,
        },
{
    let c = chars_of(v);
    let n = c.len();
    if n > 0 && c[0] == '-' {
        assert(c@.subrange(1, n as int) =~= v@.drop_first());
        match parse_digits(&c, 1, n, 0x8000_0000) {
            Some(m) => Some((0 - (m as i64)) as i32),
            None => None,
        }
    } else {
        let from: usize = if n > 0 && c[0] == '+' { 1 } else { 0 };
        assert(c@.subrange(from as int, n as int) =~= (if v@.len() > 0 && v@[0] == '+' { v@.drop_first() } else { v@ }));
        match parse_digits(&c, from, n, 0x7fff_ffff) {
            Some(m) => Some(m as i32),
            None => None,
        }
    }
}

/// Settings read from `[section]` / `key=value` text.
pub struct Config {
    entries: Vec<(String, String, String)>,
}

impl View for Config {
    type V = Seq<Assignment>;

    closed spec fn view(&self) -> Seq<Assignment> {
        self.entries@.map_values(|e: (String, String, String)| (e.0@, e.1@, e.2@))
    }
}

impl Config {
    pub fn new() -> (r: Self)
        ensures
            r@ == Seq::<Assignment>::empty(),
    {
        let r = Config { entries: Vec::new() };
        assert(r@ =~= Seq::<Assignment>::empty());
        r
    }

    /// Reads the settings in `contents`; they are added after those read before, and a
    /// later value for a section and key wins.
    pub fn parse(&mut self, contents: &str)
        ensures
            final(self)@ == old(self)@ + assignments(Seq::empty(), contents@),
    {
        let c = chars_of(contents);
        let len = c.len();
        let mut section = String::new();
        let mut pos: usize = 0;
        assert(c@.skip(0) =~= c@);
        loop
            invariant
                c@ == contents@,
                len == c@.len(),
                pos <= len,
                old(self)@ + assignments(Seq::empty(), contents@)
                    == self@ + assignments(section@, c@.skip(pos as int)),
            decreases len - pos,
        {
            let ghost text = c@.skip(pos as int);
            let ghost before = self@;
            let e = find_char(&c, pos, len, '\n');
            assert(c@.subrange(pos as int, len as int) =~= text);
            proof {
                lemma_index_of_bound(text, '\n');
            }
            assert(text.take(e - pos) =~= c@.subrange(pos as int, e as int));
            let (a, b) = trim_bounds(&c, pos, e);
            let ghost l = c@.subrange(a as int, b as int);
            let ghost old_section = section@;
            let ghost here: Seq<Assignment> = Seq::empty();
            if a == b || c[a] == ';' || c[a] == '#' {
            } else if b - a >= 2 && c[a] == '[' && c[b - 1] == ']' {
                let name = contents.substring_char(a + 1, b - 1);
                section = name.to_string();
                proof {
                    vstd::string::to_string_from_display_ensures_for_str(name, section);
                    assert(section@ =~= l.subrange(1, l.len() - 1));
                }
            } else {
                let p = find_char(&c, a, b, '=');
                if p < b {
                    proof {
                        lemma_index_of_bound(l, '=');
                    }
                    let (ka, kb) = trim_bounds(&c, a, p);
                    let (va, vb) = trim_bounds(&c, p + 1, b);
                    assert(c@.subrange(a as int, p as int) =~= l.take(p - a));
                    assert(c@.subrange(p + 1, b as int) =~= l.skip(p - a + 1));
                    let ks = contents.substring_char(ka, kb);
                    let vs = contents.substring_char(va, vb);
                    let key = ks.to_string();
                    let value = vs.to_string();
                    let sec = section.clone();
                    proof {
                        vstd::string::to_string_from_display_ensures_for_str(ks, key);
                        vstd::string::to_string_from_display_ensures_for_str(vs, value);
                        here = seq![(old_section, key@, value@)];
                    }
                    self.entries.push((sec, key, value));
                }
            }
            assert(self@ =~= before + here);
            if e == len {
                assert(assignments(old_section, text) =~= here);
                return;
            }
            assert(text.skip(e - pos + 1) =~= c@.skip(e as int + 1));
            assert(assignments(old_section, text) == here + assignments(section@, c@.skip(e as int + 1)));
            assert(self@ + assignments(section@, c@.skip(e as int + 1))
                =~= before + assignments(old_section, text));
            pos = e + 1;
        }
    }

    /// The value most recently set for `key` in `section`.
    pub fn get_as_string(&self, section: &str, key: &str) -> (r: Option<String>)
        ensures
            match r {
                Some(v) => lookup(self@, section@, key@) == Some(v@),
                None => lookup(self@, section@, key@) is None,
            },
    {
        let s = section.to_string();
        let k = key.to_string();
        proof {
            vstd::string::to_string_from_display_ensures_for_str(section, s);
            vstd::string::to_string_from_display_ensures_for_str(key, k);
        }
        let mut i: usize = self.entries.len();
        assert(self@.take(i as int) =~= self@);
        while i > 0
            invariant
                i <= self@.len(),
                self@.len() == self.entries@.len(),
                s@ == section@,
                k@ == key@,
                lookup(self@, section@, key@) == lookup(self@.take(i as int), section@, key@),
            decreases i,
        {
            assert(self@.take(i as int).last() == self@[i - 1]);
            assert(self@.take(i as int).drop_last() =~= self@.take(i - 1));
            if self.entries[i - 1].0 == s && self.entries[i - 1].1 == k {
                return Some(self.entries[i - 1].2.clone());
            }
            i = i - 1;
        }
        None
    }

    /// The value most recently set for `key` in `section`, read as an `i32`.
    pub fn get_as_int(&self, section: &str, key: &str) -> (r: Option<i32>)
        ensures
            match lookup(self@, section@, key@) {
                Some(v) => match r {
                    Some(x) => i32_value(v) == Some(x as int),
                    None => i32_value(v) is None,
                },
                None => r is None,
            },
    {
        match self.get_as_string(section, key) {
            Some(v) => parse_i32(v.as_str()),
            None => None,
        }
    }
}

} // verus!
