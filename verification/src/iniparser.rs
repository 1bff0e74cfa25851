//! A small INI-style configuration parser: `[section]` headers,
//! `key = value` lines, `#`/`;` comment lines; blank lines and lines
//! without an `=` are skipped. A section is recorded when its first
//! following header (or the end of input) is reached, and only if it
//! holds at least one key.

use vstd::prelude::*;

use crate::strings::{find_from_spec, find_from, trim_brackets_spec, trim_brackets_str, trim_spec,
    trim_str, lemma_find_from_spec};

verus! {

/// One `name = value` entry of a section.
#[derive(Debug, Clone)]
pub struct Key {
    name: String,
    value: String,
}

pub ghost struct KeyView {
    pub name: Seq<char>,
    pub value: Seq<char>,
}

impl View for Key {
    type V = KeyView;

    closed spec fn view(&self) -> KeyView {
        KeyView { name: self.name@, value: self.value@ }
    }
}

impl DeepView for Key {
    type V = KeyView;

    open spec fn deep_view(&self) -> KeyView {
        self.view()
    }
}

impl Key {
    pub fn value(&self) -> (r: &str)
        ensures
            r@ == self@.value,
    {
        self.value.as_str()
    }
}

/// One named section and its keys, in file order.
pub struct Section {
    name: String,
    keys: Vec<Key>,
}

pub ghost struct SectionView {
    pub name: Seq<char>,
    pub keys: Seq<KeyView>,
}

impl View for Section {
    type V = SectionView;

    closed spec fn view(&self) -> SectionView {
        SectionView { name: self.name@, keys: self.keys.deep_view() }
    }
}

impl DeepView for Section {
    type V = SectionView;

    open spec fn deep_view(&self) -> SectionView {
        self.view()
    }
}

/// The value of the first key of this name, if any.
pub open spec fn section_get_spec(keys: Seq<KeyView>, name: Seq<char>) -> Option<Seq<char>>
    decreases keys.len(),
{
    if keys.len() == 0 {
        None
    } else if keys[0].name == name {
        Some(keys[0].value)
    } else {
        section_get_spec(keys.drop_first(), name)
    }
}

impl Section {
    pub fn name(&self) -> (r: &str)
        ensures
            r@ == self@.name,
    {
        self.name.as_str()
    }

    /// The value of the first key named `name`, or `Err("Not found")`.
    pub fn get(&self, name: &str) -> (r: Result<&str, String>)
        ensures
            (r is Ok) == (section_get_spec(self@.keys, name@) is Some),
            r is Ok ==> r->Ok_0@ == section_get_spec(self@.keys, name@)->Some_0,
            r is Err ==> r->Err_0@ == "Not found"@,
    {
        let n: usize = self.keys.len();
        let mut i: usize = 0;
        proof {
            assert(self@.keys.skip(0) =~= self@.keys);
        }
        while i < n
            invariant
                i <= n,
                n == self.keys@.len(),
                section_get_spec(self@.keys, name@) == section_get_spec(
                    self@.keys.skip(i as int),
                    name@,
                ),
            decreases n - i,
        {
            proof {
                assert(self@.keys.skip(i as int)[0] == self@.keys[i as int]);
                assert(self@.keys.skip(i as int).drop_first() =~= self@.keys.skip(i + 1));
            }
            if crate::strings::str_eq(self.keys[i].name.as_str(), name) {
                return Ok(self.keys[i].value());
            }
            i = i + 1;
        }
        proof {
            assert(self@.keys.skip(n as int) =~= Seq::<KeyView>::empty());
        }
        Err("Not found".to_owned())
    }
}

/// The parsed configuration: its sections, in file order.
pub struct Ini {
    sections: Vec<Section>,
}

impl View for Ini {
    type V = Seq<SectionView>;

    closed spec fn view(&self) -> Seq<SectionView> {
        self.sections.deep_view()
    }
}

/// The first section of this name, if any.
pub open spec fn find_section_spec(sections: Seq<SectionView>, name: Seq<char>) -> Option<
    SectionView,
>
    decreases sections.len(),
{
    if sections.len() == 0 {
        None
    } else if sections[0].name == name {
        Some(sections[0])
    } else {
        find_section_spec(sections.drop_first(), name)
    }
}

impl Ini {
    fn new() -> (r: Ini)
        ensures
            r@ == Seq::<SectionView>::empty(),
    {
        let r = Ini { sections: Vec::new() };
        proof {
            assert(r@ =~= Seq::<SectionView>::empty());
        }
        r
    }

    /// The first section named `name`, or `Err("Not found")`.
    pub fn section(&self, name: &str) -> (r: Result<&Section, String>)
        ensures
            (r is Ok) == (find_section_spec(self@, name@) is Some),
            r is Ok ==> r->Ok_0@ == find_section_spec(self@, name@)->Some_0,
            r is Err ==> r->Err_0@ == "Not found"@,
    {
        let n: usize = self.sections.len();
        let mut i: usize = 0;
        proof {
            assert(self@.skip(0) =~= self@);
        }
        while i < n
            invariant
                i <= n,
                n == self.sections@.len(),
                find_section_spec(self@, name@) == find_section_spec(self@.skip(i as int), name@),
            decreases n - i,
        {
            proof {
                assert(self@.skip(i as int)[0] == self@[i as int]);
                assert(self@.skip(i as int).drop_first() =~= self@.skip(i + 1));
            }
            if crate::strings::str_eq(self.sections[i].name.as_str(), name) {
                return Ok(&self.sections[i]);
            }
            i = i + 1;
        }
        proof {
            assert(self@.skip(n as int) =~= Seq::<SectionView>::empty());
        }
        Err("Not found".to_owned())
    }

    pub fn sections(&self) -> (r: &Vec<Section>)
        ensures
            r.deep_view() == self@,
    {
        &self.sections
    }
}

/// The parse of one `key = value` line (already trimmed): the text before
/// the first `=`, and the text between the first and second `=` (or the
/// rest of the line when there is no second `=`), each trimmed. A line
/// without `=` carries no key.
pub open spec fn key_of_line(t: Seq<char>) -> Option<KeyView> {
    match find_from_spec(t, "="@, 0) {
        None => None,
        Some(i) => {
            let end = match find_from_spec(t, "="@, i + 1) {
                Some(j) => j,
                None => t.len() as int,
            };
            Some(
                KeyView {
                    name: trim_spec(t.subrange(0, i)),
                    value: trim_spec(t.subrange(i + 1, end)),
                },
            )
        },
    }
}

/// The name taken from a `[name]` header line: the line with brackets and
/// surrounding whitespace stripped.
pub open spec fn header_name(line: Seq<char>) -> Seq<char> {
    trim_spec(trim_brackets_spec(trim_spec(line)))
}

/// The parser state after some prefix of the lines: the finished
/// sections, and the name and keys of the section still being collected.
pub ghost struct IniStateView {
    pub sections: Seq<SectionView>,
    pub cur_name: Seq<char>,
    pub cur_keys: Seq<KeyView>,
}

/// One parser step. Blank and comment lines are skipped; a header line
/// (bracketed in its raw form) finishes the collected section if it has
/// keys and starts a new one; any other line contributes a key when it
/// has the `key = value` shape.
pub open spec fn ini_step(st: IniStateView, line: Seq<char>) -> IniStateView {
    let t = trim_spec(line);
    if t.len() == 0 {
        st
    } else if t[0] == '#' || t[0] == ';' {
        st
    } else if line.len() > 0 && line[0] == '[' && line[line.len() - 1] == ']' {
        let finished = if st.cur_keys.len() > 0 {
            st.sections.push(SectionView { name: st.cur_name, keys: st.cur_keys })
        } else {
            st.sections
        };
        IniStateView { sections: finished, cur_name: header_name(line), cur_keys: Seq::empty() }
    } else {
        match key_of_line(t) {
            None => st,
            Some(k) => IniStateView {
                sections: st.sections,
                cur_name: st.cur_name,
                cur_keys: st.cur_keys.push(k),
            },
        }
    }
}

/// The parser state after the first `upto` lines.
pub open spec fn ini_state(lines: Seq<Seq<char>>, upto: int) -> IniStateView
    decreases upto,
{
    if upto <= 0 {
        IniStateView {
            sections: Seq::empty(),
            cur_name: Seq::empty(),
            cur_keys: Seq::empty(),
        }
    } else {
        ini_step(ini_state(lines, upto - 1), lines[upto - 1])
    }
}

/// The sections parsed from the given lines: the finished sections, plus
/// the trailing one when it holds at least one key.
pub open spec fn parse_ini_spec(lines: Seq<Seq<char>>) -> Seq<SectionView> {
    let st = ini_state(lines, lines.len() as int);
    if st.cur_keys.len() > 0 {
        st.sections.push(SectionView { name: st.cur_name, keys: st.cur_keys })
    } else {
        st.sections
    }
}

/// Parses the lines of an INI-style configuration file.
pub fn parse_ini(lines: &Vec<String>) -> (r: Ini)
    ensures
        r@ == parse_ini_spec(lines.deep_view()),
{
    let mut ini: Ini = Ini::new();
    let mut section_name: String = String::new();
    let mut keys: Vec<Key> = Vec::new();
    let n: usize = lines.len();
    let mut idx: usize = 0;
    proof {
        assert(keys.deep_view() =~= Seq::<KeyView>::empty());
    }
    while idx < n
        invariant
            idx <= n,
            n == lines@.len(),
            ini@ == ini_state(lines.deep_view(), idx as int).sections,
            section_name@ == ini_state(lines.deep_view(), idx as int).cur_name,
            keys.deep_view() == ini_state(lines.deep_view(), idx as int).cur_keys,
        decreases n - idx,
    {
        let ghost st = ini_state(lines.deep_view(), idx as int);
        let line: &str = lines[idx].as_str();
        proof {
            assert(lines.deep_view()[idx as int] == line@);
        }
        let trimmed = trim_str(line);
        let tn: usize = trimmed.as_str().unicode_len();
        if tn == 0 {
            // blank line
        } else if trimmed.as_str().get_char(0) == '#' || trimmed.as_str().get_char(0) == ';' {
            // comment line
        } else {
            let raw_n: usize = line.unicode_len();
            if raw_n > 0 && line.get_char(0) == '[' && line.get_char(raw_n - 1) == ']' {
                if !keys.is_empty() {
                    let ghost prev = ini@;
                    let finished = Section { name: section_name, keys };
                    ini.sections.push(finished);
                    keys = Vec::new();
                    proof {
                        assert(ini@ =~= prev.push(finished@));
                        assert(keys.deep_view() =~= Seq::<KeyView>::empty());
                    }
                } else {
                    proof {
                        assert(keys.deep_view() =~= Seq::<KeyView>::empty());
                    }
                }
                let t2 = trim_brackets_str(trimmed.as_str());
                section_name = trim_str(t2.as_str());
            } else {
                let found = find_from(trimmed.as_str(), "=", 0);
                proof {
                    lemma_find_from_spec(trimmed@, "="@, 0);
                }
                match found {
                    None => {
                        // no `=`: the line is skipped
                    },
                    Some(i0) => {
                        let second = find_from(trimmed.as_str(), "=", i0 + 1);
                        proof {
                            lemma_find_from_spec(trimmed@, "="@, i0 + 1);
                        }
                        let end: usize = match second {
                            Some(j) => j,
                            None => tn,
                        };
                        let name = trim_str(trimmed.as_str().substring_char(0, i0));
                        let value = trim_str(trimmed.as_str().substring_char(i0 + 1, end));
                        let ghost prev_keys = keys.deep_view();
                        let key = Key { name, value };
                        proof {
                            assert(trimmed@.subrange(0, i0 as int) =~= trimmed@.subrange(
                                0,
                                i0 as int,
                            ));
                            assert(key@ == key_of_line(trimmed@)->Some_0);
                        }
                        keys.push(key);
                        proof {
                            assert(keys.deep_view() =~= prev_keys.push(key@));
                        }
                    },
                }
            }
        }
        idx = idx + 1;
    }
    if !keys.is_empty() {
        let ghost prev = ini@;
        let finished = Section { name: section_name, keys };
        ini.sections.push(finished);
        proof {
            assert(ini@ =~= prev.push(finished@));
        }
    }
    ini
}

} // verus!
