//! Prompt templates and skill bundles kept in the tool's directory.
use vstd::prelude::*;
use crate::sync::starts_with;
use crate::text::{
    chars_of, concat, find_from, first_occurrence, slice_string, strip_bounds, strip_leading,
    strip_trailing, trim, trim_bounds,
};

verus! {

/// A prompt template file.
pub struct PromptInfo {
    pub name: String,
    pub description: String,
    pub argument_hint: Option<String>,
    pub file_path: String,
    pub content: String,
}

/// A skill directory.
pub struct SkillInfo {
    pub name: String,
    pub description: String,
    pub compatibility: Option<String>,
    pub dir_path: String,
    pub has_scripts: bool,
    pub has_assets: bool,
    pub has_references: bool,
}

/// The pieces of `s` between the copies of `sep`.
pub open spec fn split_on(s: Seq<char>, sep: char) -> Seq<Seq<char>>
    decreases s.len(),
{
    if s.len() == 0 {
        seq![seq![]]
    } else {
        let p = split_on(s.drop_last(), sep);
        if s.last() == sep {
            p.push(seq![])
        } else {
            p.update(p.len() - 1, p.last().push(s.last()))
        }
    }
}

proof fn lemma_split_on_nonempty(s: Seq<char>, sep: char)
    ensures
        split_on(s, sep).len() >= 1,
    decreases s.len(),
{
    if s.len() > 0 {
        lemma_split_on_nonempty(s.drop_last(), sep);
    }
}

/// `line` without the carriage return that ends it, if any.
pub open spec fn without_cr(line: Seq<char>) -> Seq<char> {
    if line.len() > 0 && line.last() == '\r' {
        line.drop_last()
    } else {
        line
    }
}

/// The first `:` of `s`, if any.
pub open spec fn first_colon(s: Seq<char>) -> Option<int> {
    first_occurrence(s, seq![':'], 0)
}

/// The key and value that one front-matter line sets: text around its first
/// `:`, trimmed, the value without surrounding `"` and then `'`; none for a
/// line without `:` or a folded (`>`) or literal (`|`) block marker.
pub open spec fn line_pair(line: Seq<char>) -> Option<(Seq<char>, Seq<char>)> {
    let l = without_cr(line);
    match first_colon(l) {
        None => None,
        Some(c) => {
            let key = trim(l.subrange(0, c));
            let v = trim(l.subrange(c + 1, l.len() as int));
            let v = strip_trailing(strip_leading(v, '"'), '"');
            let v = strip_trailing(strip_leading(v, '\''), '\'');
            if v == seq!['>'] || v == seq!['|'] {
                None
            } else {
                Some((key, v))
            }
        },
    }
}

/// The pairs that `lines` set, in order.
pub open spec fn line_pairs(lines: Seq<Seq<char>>) -> Seq<(Seq<char>, Seq<char>)>
    decreases lines.len(),
{
    if lines.len() == 0 {
        seq![]
    } else {
        let before = line_pairs(lines.drop_last());
        match line_pair(lines.last()) {
            Some(p) => before.push(p),
            None => before,
        }
    }
}

/// The key/value pairs of the front matter of a Markdown text, in order: the
/// text (trimmed) must open with `---` and have a line starting `---` after
/// that; `None` where it has none, or sets nothing.
pub open spec fn frontmatter_of(content: Seq<char>) -> Option<Seq<(Seq<char>, Seq<char>)>> {
    let c = trim(content);
    if !starts_with(c, seq!['-', '-', '-']) {
        None
    } else {
        let rest = c.subrange(3, c.len() as int);
        match first_occurrence(rest, seq!['\n', '-', '-', '-'], 0) {
            None => None,
            Some(i) => {
                let pairs = line_pairs(split_on(trim(rest.subrange(0, i)), '\n'));
                if pairs.len() > 0 {
                    Some(pairs)
                } else {
                    None
                }
            },
        }
    }
}

/// The value that the last pair for `key` in `pairs` sets.
pub open spec fn value_for(pairs: Seq<(Seq<char>, Seq<char>)>, key: Seq<char>) -> Option<Seq<char>>
    decreases pairs.len(),
{
    if pairs.len() == 0 {
        None
    } else if pairs.last().0 == key {
        Some(pairs.last().1)
    } else {
        value_for(pairs.drop_last(), key)
    }
}

pub open spec fn pair_views(v: Seq<(String, String)>) -> Seq<(Seq<char>, Seq<char>)> {
    v.map_values(|p: (String, String)| (p.0@, p.1@))
}

/// The pair that the line `v[lo..hi]` sets, if any.
fn parse_line(v: &Vec<char>, lo: usize, hi: usize) -> (r: Option<(String, String)>)
    requires
        lo <= hi <= v.len(),
    ensures
        match r {
            Some(p) => line_pair(v@.subrange(lo as int, hi as int)) == Some((p.0@, p.1@)),
            None => line_pair(v@.subrange(lo as int, hi as int)) is None,
        },
{
    let ghost line = v@.subrange(lo as int, hi as int);
    let end = if hi > lo && v[hi - 1] == '\r' {
        hi - 1
    } else {
        hi
    };
    let ghost l = v@.subrange(lo as int, end as int);
    assert(l == without_cr(line)) by {
        if hi > lo && v@[hi - 1] == '\r' {
            assert(line.drop_last() =~= l);
        } else {
            assert(line =~= l);
        }
    }
    let lv = chars_of(slice_string(v, lo, end).as_str());
    assert(lv@ == l);
    let colon: Vec<char> = vec![':'];
    assert(colon@ =~= seq![':']);
    match find_from(&lv, &colon, 0) {
        None => None,
        Some(c) => {
            let (k0, k1) = trim_bounds(&chars_of(slice_string(&lv, 0, c).as_str()));
            let key_chars = chars_of(slice_string(&lv, 0, c).as_str());
            let key = slice_string(&key_chars, k0, k1);
            let n = lv.len();
            let val_chars = chars_of(slice_string(&lv, c + 1, n).as_str());
            let (a0, a1) = trim_bounds(&val_chars);
            let (b0, b1) = strip_bounds(&val_chars, a0, a1, '"');
            let (c0, c1) = strip_bounds(&val_chars, b0, b1, '\'');
            proof {
                let t = val_chars@.subrange(a0 as int, a1 as int);
                let u = val_chars@.subrange(b0 as int, b1 as int);
                assert(t.subrange(b0 - a0, b1 - a0) =~= u);
                assert(strip_trailing(strip_leading(t, '"'), '"') == u);
                assert(val_chars@.subrange(c0 as int, c1 as int) == strip_trailing(
                    strip_leading(u, '\''),
                    '\'',
                ));
            }
            let value = slice_string(&val_chars, c0, c1);
            if c1 == c0 + 1 && (val_chars[c0] == '>' || val_chars[c0] == '|') {
                assert(value@ =~= seq![val_chars@[c0 as int]]);
                None
            } else {
                proof {
                    if value@ == seq!['>'] || value@ == seq!['|'] {
                        assert(value@.len() == 1);
                        assert(value@[0] == val_chars@[c0 as int]);
                    }
                }
                Some((key, value))
            }
        },
    }
}

/// The key/value pairs of the front matter of `content`; see
/// `frontmatter_of`.
pub fn parse_frontmatter(content: &str) -> (r: Option<Vec<(String, String)>>)
    ensures
        match r {
            Some(p) => frontmatter_of(content@) == Some(pair_views(p@)),
            None => frontmatter_of(content@) is None,
        },
{
    let all = chars_of(content);
    let (lo, hi) = trim_bounds(&all);
    let c = chars_of(slice_string(&all, lo, hi).as_str());
    if c.len() < 3 || c[0] != '-' || c[1] != '-' || c[2] != '-' {
        proof {
            if c@.len() >= 3 && c@.subrange(0, 3) == seq!['-', '-', '-'] {
                assert(c@.subrange(0, 3)[0] == c@[0]);
                assert(c@.subrange(0, 3)[1] == c@[1]);
                assert(c@.subrange(0, 3)[2] == c@[2]);
            }
        }
        return None;
    }
    assert(c@.subrange(0, 3) =~= seq!['-', '-', '-']);
    let rest = chars_of(slice_string(&c, 3, c.len()).as_str());
    let marker: Vec<char> = vec!['\n', '-', '-', '-'];
    assert(marker@ =~= seq!['\n', '-', '-', '-']);
    let idx = match find_from(&rest, &marker, 0) {
        None => {
            return None;
        },
        Some(i) => i,
    };
    let head = chars_of(slice_string(&rest, 0, idx).as_str());
    let (y0, y1) = trim_bounds(&head);
    let yaml = chars_of(slice_string(&head, y0, y1).as_str());
    let n = yaml.len();
    let mut pairs: Vec<(String, String)> = Vec::new();
    let mut start: usize = 0;
    let mut i: usize = 0;
    assert(yaml@.subrange(0, 0) =~= seq![]);
    assert(pair_views(pairs@) =~= seq![]);
    while i < n
        invariant
            n == yaml.len(),
            start <= i <= n,
            split_on(yaml@.subrange(0, i as int), '\n').len() >= 1,
            split_on(yaml@.subrange(0, i as int), '\n').last() == yaml@.subrange(
                start as int,
                i as int,
            ),
            pair_views(pairs@) == line_pairs(
                split_on(yaml@.subrange(0, i as int), '\n').drop_last(),
            ),
        decreases n - i,
    {
        let ghost pre = yaml@.subrange(0, i as int);
        let ghost post = yaml@.subrange(0, i + 1);
        proof {
            assert(post.drop_last() =~= pre);
            lemma_split_on_nonempty(pre, '\n');
        }
        if yaml[i] == '\n' {
            let ghost before = pair_views(pairs@);
            let p = parse_line(&yaml, start, i);
            match p {
                Some(kv) => {
                    pairs.push(kv);
                    assert(pair_views(pairs@) =~= before.push((kv.0@, kv.1@)));
                },
                None => {},
            }
            proof {
                assert(split_on(post, '\n').drop_last() =~= split_on(pre, '\n'));
                assert(split_on(pre, '\n').drop_last() =~= split_on(pre, '\n').drop_last());
                assert(yaml@.subrange(i + 1, i + 1) =~= seq![]);
            }
            start = i + 1;
        } else {
            proof {
                let sp = split_on(pre, '\n');
                assert(split_on(post, '\n').drop_last() =~= sp.drop_last());
                assert(yaml@.subrange(start as int, i + 1) =~= yaml@.subrange(start as int, i as int).push(yaml@[i as int]));
            }
        }
        i = i + 1;
    }
    assert(yaml@.subrange(0, n as int) =~= yaml@);
    let ghost before = pair_views(pairs@);
    let last = parse_line(&yaml, start, n);
    match last {
        Some(kv) => {
            pairs.push(kv);
            assert(pair_views(pairs@) =~= before.push((kv.0@, kv.1@)));
        },
        None => {},
    }
    proof {
        lemma_split_on_nonempty(yaml@, '\n');
        let sp = split_on(yaml@, '\n');
        assert(sp.drop_last().push(sp.last()) =~= sp);
        assert(sp.drop_last() =~= sp.drop_last());
    }
    if pairs.len() > 0 {
        Some(pairs)
    } else {
        None
    }
}

pub open spec fn fm_value(fm: Option<Seq<(Seq<char>, Seq<char>)>>, key: Seq<char>) -> Option<Seq<char>> {
    match fm {
        Some(p) => value_for(p, key),
        None => None,
    }
}

pub open spec fn fm_view(fm: Option<Vec<(String, String)>>) -> Option<Seq<(Seq<char>, Seq<char>)>> {
    match fm {
        Some(p) => Some(pair_views(p@)),
        None => None,
    }
}

/// The value that front matter `fm` sets for `key`, the last one if several.
pub fn frontmatter_value(fm: &Option<Vec<(String, String)>>, key: &str) -> (r: Option<String>)
    ensures
        match r {
            Some(v) => fm_value(fm_view(*fm), key@) == Some(v@),
            None => fm_value(fm_view(*fm), key@) is None,
        },
{
    match fm {
        None => None,
        Some(pairs) => {
            let k = String::from_str(key);
            assert(fm_view(*fm) == Some(pair_views(pairs@)));
            let mut i: usize = pairs.len();
            assert(pair_views(pairs@).subrange(0, i as int) =~= pair_views(pairs@));
            while i > 0
                invariant
                    i <= pairs.len(),
                    k@ == key@,
                    fm_view(*fm) == Some(pair_views(pairs@)),
                    value_for(pair_views(pairs@), key@) == value_for(
                        pair_views(pairs@).subrange(0, i as int),
                        key@,
                    ),
                decreases i,
            {
                let ghost sub = pair_views(pairs@).subrange(0, i as int);
                assert(sub.last() == (pairs@[i - 1].0@, pairs@[i - 1].1@));
                if pairs[i - 1].0 == k {
                    let v = pairs[i - 1].1.clone();
                    assert(sub.last().0 == key@);
                    assert(v@ == sub.last().1);
                    assert(value_for(sub, key@) == Some(v@));
                    assert(fm_view(*fm) == Some(pair_views(pairs@)));
                    return Some(v);
                }
                assert(sub.drop_last() =~= pair_views(pairs@).subrange(0, i - 1));
                i = i - 1;
            }
            assert(pair_views(pairs@).subrange(0, pairs.len() as int) =~= pair_views(pairs@));
            None
        },
    }
}

/// The prompt described by the Markdown file at `file_path`, named `stem`,
/// holding `content`.
pub fn prompt_info(file_path: String, stem: String, content: String) -> (r: PromptInfo)
    ensures
        r.name@ == stem@,
        r.file_path@ == file_path@,
        r.content@ == content@,
        r.description@ == (match fm_value(frontmatter_of(content@), "description"@) {
            Some(d) => d,
            None => seq![],
        }),
        match r.argument_hint {
            Some(h) => fm_value(frontmatter_of(content@), "argument-hint"@) == Some(h@),
            None => fm_value(frontmatter_of(content@), "argument-hint"@) is None,
        },
{
    let fm = parse_frontmatter(content.as_str());
    let description = match frontmatter_value(&fm, "description") {
        Some(d) => d,
        None => String::new(),
    };
    let argument_hint = frontmatter_value(&fm, "argument-hint");
    PromptInfo { name: stem, description, argument_hint, file_path, content }
}

/// The skill in the directory `dir_path` (named `dir_name`) whose
/// `SKILL.md` holds `content`.
pub fn skill_info(
    dir_name: String,
    dir_path: String,
    content: &str,
    has_scripts: bool,
    has_assets: bool,
    has_references: bool,
) -> (r: SkillInfo)
    ensures
        r.name@ == (match fm_value(frontmatter_of(content@), "name"@) {
            Some(n) => n,
            None => dir_name@,
        }),
        r.description@ == (match fm_value(frontmatter_of(content@), "description"@) {
            Some(d) => d,
            None => seq![],
        }),
        match r.compatibility {
            Some(c) => fm_value(frontmatter_of(content@), "compatibility"@) == Some(c@),
            None => fm_value(frontmatter_of(content@), "compatibility"@) is None,
        },
        r.dir_path@ == dir_path@,
        r.has_scripts == has_scripts && r.has_assets == has_assets && r.has_references
            == has_references,
{
    let fm = parse_frontmatter(content);
    let name = match frontmatter_value(&fm, "name") {
        Some(n) => n,
        None => dir_name,
    };
    let description = match frontmatter_value(&fm, "description") {
        Some(d) => d,
        None => String::new(),
    };
    let compatibility = frontmatter_value(&fm, "compatibility");
    SkillInfo { name, description, compatibility, dir_path, has_scripts, has_assets, has_references }
}

/// Whether a directory of the skills directory is a skill: not hidden, not
/// the build output `dist`.
pub fn is_skill_dir_name(name: &str) -> (r: bool)
    ensures
        r == (!starts_with(name@, seq!['.']) && name@ != "dist"@),
{
    let v = chars_of(name);
    proof {
        if v.len() >= 1 {
            if v@[0] == '.' {
                assert(v@.subrange(0, 1) =~= seq!['.']);
            } else if v@.subrange(0, 1) == seq!['.'] {
                assert(v@.subrange(0, 1)[0] == v@[0]);
            }
        }
    }
    let hidden = v.len() >= 1 && v[0] == '.';
    !hidden && String::from_str(name) != String::from_str("dist")
}

/// The file text of a new prompt.
pub fn prompt_file_text(description: &str, content: &str) -> (r: String)
    ensures
        r@ == "---\ndescription: "@ + description@ + "\n---\n\n"@ + content@,
{
    let a = concat("---\ndescription: ", description);
    let b = concat(a.as_str(), "\n---\n\n");
    concat(b.as_str(), content)
}

/// The `SKILL.md` text of a new skill: front matter, then an outline for
/// the author to fill in.
pub fn skill_file_text(name: &str, description: &str) -> (r: String)
    ensures
        r@ == "---\nname: "@ + name@ + "\ndescription: "@ + description@ + "\n---\n\n# "@ + name@
            + "\n\n## When to Use\n- TODO\n\n## When NOT to Use\n- TODO\n\n## Workflow\n1. TODO\n"@,
{
    let a = concat("---\nname: ", name);
    let b = concat(a.as_str(), "\ndescription: ");
    let c = concat(b.as_str(), description);
    let d = concat(c.as_str(), "\n---\n\n# ");
    let e = concat(d.as_str(), name);
    concat(
        e.as_str(),
        "\n\n## When to Use\n- TODO\n\n## When NOT to Use\n- TODO\n\n## Workflow\n1. TODO\n",
    )
}

/// The file name of the prompt `name`.
pub fn prompt_file_name(name: &str) -> (r: String)
    ensures
        r@ == name@ + ".md"@,
{
    concat(name, ".md")
}

} // verus!
