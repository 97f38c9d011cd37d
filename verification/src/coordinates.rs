//! Coordinates as text: the fields of a line of the zip-code table and the
//! geometry attribute of a store page. The numbers in them are read by the caller.

use vstd::prelude::*;
use crate::patterns::{first_capture_of, regex_first_capture};
use crate::text::{chars_of, string_of, trim, trim_str, views};

verus! {

/// The fields of `s` between separators, as `str::split` gives them: one more
/// field than there are separators, empty fields included.
pub open spec fn fields_of(s: Seq<char>, sep: char) -> Seq<Seq<char>>
    decreases s.len(),
{
    if s.len() == 0 {
        seq![Seq::empty()]
    } else {
        let prev = fields_of(s.drop_last(), sep);
        if s.last() == sep {
            prev.push(Seq::empty())
        } else {
            prev.update(prev.len() - 1, prev.last().push(s.last()))
        }
    }
}

/// There is always at least one field.
pub proof fn lemma_fields_nonempty(s: Seq<char>, sep: char)
    ensures
        fields_of(s, sep).len() >= 1,
    decreases s.len(),
{
    if s.len() > 0 {
        lemma_fields_nonempty(s.drop_last(), sep);
    }
}

/// Splits a text at each separator.
pub fn split_fields(s: &str, sep: char) -> (r: Vec<String>)
    ensures
        views(r@) == fields_of(s@, sep),
{
    let v = chars_of(s);
    let mut done: Vec<String> = Vec::new();
    let mut current: Vec<char> = Vec::new();
    let mut i: usize = 0;
    while i < v.len()
        invariant
            i <= v.len(),
            v@ == s@,
            views(done@).push(current@) == fields_of(v@.take(i as int), sep),
        decreases v.len() - i,
    {
        let c = v[i];
        let ghost before = fields_of(v@.take(i as int), sep);
        proof {
            assert(v@.take(i + 1).drop_last() =~= v@.take(i as int));
            assert(v@.take(i + 1).last() == c);
            lemma_fields_nonempty(v@.take(i as int), sep);
        }
        if c == sep {
            let field = string_of(current.as_slice());
            let ghost fv = field@;
            done.push(field);
            current = Vec::new();
            assert(views(done@) =~= views(done@.drop_last()).push(fv));
            assert(views(done@).push(current@) =~= before.push(Seq::empty()));
        } else {
            current.push(c);
            assert(views(done@).push(current@) =~= before.update(before.len() - 1, before.last().push(c)));
        }
        i += 1;
    }
    assert(v@.take(v.len() as int) =~= v@);
    let last = string_of(current.as_slice());
    let ghost lv = last@;
    let ghost d = views(done@);
    done.push(last);
    assert(views(done@) =~= d.push(lv));
    done
}

/// The zip code, latitude and longitude texts of a line of the zip-code table:
/// its first, sixth and seventh comma-separated fields, when it has at least seven.
pub open spec fn csv_line_fields_of(line: Seq<char>) -> Option<(Seq<char>, Seq<char>, Seq<char>)> {
    let f = fields_of(line, ',');
    if f.len() < 7 {
        None
    } else {
        Some((f[0], f[5], f[6]))
    }
}

/// Reads the zip code, latitude and longitude fields of a zip-code table line.
pub fn csv_line_fields(line: &str) -> (r: Option<(String, String, String)>)
    ensures
        match r {
            Some(t) => csv_line_fields_of(line@) == Some((t.0@, t.1@, t.2@)),
            None => csv_line_fields_of(line@) is None,
        },
{
    let fields = split_fields(line, ',');
    if fields.len() < 7 {
        return None;
    }
    assert(views(fields@)[0] == fields@[0]@);
    assert(views(fields@)[5] == fields@[5]@);
    assert(views(fields@)[6] == fields@[6]@);
    Some((fields[0].clone(), fields[5].clone(), fields[6].clone()))
}

/// The pattern of a store page's geometry attribute; its group is `lat,lon`.
pub open spec fn geometry_pattern() -> Seq<char> {
    r#"store-geometry="([^"]+)""#@
}

/// The latitude and longitude texts of a store page's geometry attribute,
/// trimmed, when it holds exactly two comma-separated parts.
pub open spec fn geometry_parts_of(html: Seq<char>) -> Option<(Seq<char>, Seq<char>)> {
    match first_capture_of(geometry_pattern(), html) {
        None => None,
        Some(g) => {
            let parts = fields_of(g, ',');
            if parts.len() == 2 {
                Some((trim(parts[0]), trim(parts[1])))
            } else {
                None
            }
        },
    }
}

/// Reads the latitude and longitude texts of a store page's geometry attribute.
pub fn store_geometry_parts(html: &str) -> (r: Option<(String, String)>)
    ensures
        match r {
            Some(p) => geometry_parts_of(html@) == Some((p.0@, p.1@)),
            None => geometry_parts_of(html@) is None,
        },
{
    let geometry = match regex_first_capture(r#"store-geometry="([^"]+)""#, html) {
        Some(g) => g,
        None => return None,
    };
    let parts = split_fields(geometry.as_str(), ',');
    if parts.len() != 2 {
        return None;
    }
    assert(views(parts@)[0] == parts@[0]@);
    assert(views(parts@)[1] == parts@[1]@);
    Some((trim_str(parts[0].as_str()), trim_str(parts[1].as_str())))
}

} // verus!
