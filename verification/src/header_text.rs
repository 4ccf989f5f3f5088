use vstd::prelude::*;
use vstd::string::StringExecFns;
use crate::scaffold_dict::{lemma_name_lookup_found, lemma_name_lookup_none, name_lookup, str_eq};

verus! {

/// One header record: ordered key/value fields, as views.
pub type FieldsView = Seq<(Seq<char>, Seq<char>)>;

/// A whole header: ordered tag groups, each an ordered sequence of records,
/// as views.
pub type HeaderView = Seq<(Seq<char>, Seq<Seq<(Seq<char>, Seq<char>)>>)>;

/// The text of one `KEY:VALUE` field.
pub open spec fn kv_text(f: (Seq<char>, Seq<char>)) -> Seq<char> {
    f.0 + seq![':'] + f.1
}

/// The fields of a record joined with tabs: `K:V\tK:V...`.
pub open spec fn fields_join(fields: FieldsView) -> Seq<char>
    decreases fields.len(),
{
    if fields.len() == 0 {
        Seq::<char>::empty()
    } else if fields.len() == 1 {
        kv_text(fields[0])
    } else {
        fields_join(fields.drop_last()) + seq!['\t'] + kv_text(fields.last())
    }
}

/// The text of one header record under its tag: `@TAG\tK:V\tK:V...`.
pub open spec fn entry_text(fields: FieldsView, tag: Seq<char>) -> Seq<char> {
    seq!['@'] + tag + seq!['\t'] + fields_join(fields)
}

/// Lines joined with newlines.
pub open spec fn lines_join(lines: Seq<Seq<char>>) -> Seq<char>
    decreases lines.len(),
{
    if lines.len() == 0 {
        Seq::<char>::empty()
    } else if lines.len() == 1 {
        lines[0]
    } else {
        lines_join(lines.drop_last()) + seq!['\n'] + lines.last()
    }
}

/// The keys of a key/value sequence, in order.
pub open spec fn field_keys(fields: FieldsView) -> Seq<Seq<char>> {
    Seq::new(fields.len(), |i: int| fields[i].0)
}

/// The tags of a header, in order.
pub open spec fn header_tags(hm: HeaderView) -> Seq<Seq<char>> {
    Seq::new(hm.len(), |i: int| hm[i].0)
}

/// The value of the first field carrying `key`, if any.
pub open spec fn field_lookup(fields: FieldsView, key: Seq<char>) -> Option<Seq<char>> {
    match name_lookup(field_keys(fields), key) {
        None => None,
        Some(i) => Some(fields[i].1),
    }
}

/// The record sequence of the first group carrying `tag`, if any.
pub open spec fn group_lookup(hm: HeaderView, tag: Seq<char>) -> Option<
    Seq<Seq<(Seq<char>, Seq<char>)>>,
> {
    match name_lookup(header_tags(hm), tag) {
        None => None,
        Some(i) => Some(hm[i].1),
    }
}

/// The fields with the first occurrence of `key` set to `val`: replaced in
/// place when the key is present, appended otherwise.
pub open spec fn set_field(fields: FieldsView, key: Seq<char>, val: Seq<char>) -> FieldsView {
    match name_lookup(field_keys(fields), key) {
        None => fields.push((key, val)),
        Some(i) => fields.update(i, (key, val)),
    }
}

/// The text lines of one tag's group.
pub open spec fn group_lines(entries: Seq<Seq<(Seq<char>, Seq<char>)>>, tag: Seq<char>) -> Seq<
    Seq<char>,
> {
    Seq::new(entries.len(), |j: int| entry_text(entries[j], tag))
}

/// One pre-joined text block per requested tag that the header holds, in
/// request order.
pub open spec fn header_blocks(hm: HeaderView, tags: Seq<Seq<char>>) -> Seq<Seq<char>>
    decreases tags.len(),
{
    if tags.len() == 0 {
        Seq::<Seq<char>>::empty()
    } else {
        header_blocks(hm, tags.drop_last()) + match group_lookup(hm, tags.last()) {
            None => Seq::<Seq<char>>::empty(),
            Some(entries) => seq![lines_join(group_lines(entries, tags.last()))],
        }
    }
}

/// The tags a header text lists, in their canonical order.
pub open spec fn canonical_tags() -> Seq<Seq<char>> {
    seq!["HD"@, "SQ"@, "PG"@, "CL"@, "RG"@]
}

/// Format one header record as its text line, `@TAG\tK:V\tK:V...`.
pub fn header_entry_line(fields: &Vec<(String, String)>, tag: &str) -> (r: String)
    ensures
        r@ == entry_text(fields.deep_view(), tag@),
{
    proof {
        reveal_strlit("@");
        reveal_strlit("\t");
        reveal_strlit(":");
    }
    let mut s: String = String::from_str("@").concat(tag).concat("\t");
    proof {
        assert(fields.deep_view().take(0) =~= Seq::<(Seq<char>, Seq<char>)>::empty());
        assert(s@ =~= entry_text(fields.deep_view().take(0), tag@));
    }
    let mut i: usize = 0;
    while i < fields.len()
        invariant
            i <= fields@.len(),
            fields.deep_view().len() == fields@.len(),
            s@ == entry_text(fields.deep_view().take(i as int), tag@),
        decreases fields@.len() - i,
    {
        if i > 0 {
            s = s.concat("\t");
        }
        s = s.concat(fields[i].0.as_str()).concat(":").concat(fields[i].1.as_str());
        proof {
            reveal_strlit("\t");
            reveal_strlit(":");
            let dv = fields.deep_view();
            assert(dv[i as int] == (fields@[i as int].0@, fields@[i as int].1@));
            assert(dv.take(i as int + 1).drop_last() =~= dv.take(i as int));
            assert(dv.take(i as int + 1).last() == dv[i as int]);
            assert(s@ =~= entry_text(dv.take(i as int + 1), tag@));
        }
        i += 1;
    }
    proof {
        assert(fields.deep_view().take(fields@.len() as int) =~= fields.deep_view());
    }
    s
}

/// The text lines of the header group carrying `tag`, one per record, or
/// nothing when the header has no such group.
pub fn header_tag_lines(
    tag: &str,
    hm: &Vec<(String, Vec<Vec<(String, String)>>)>,
) -> (r: Option<Vec<String>>)
    ensures
        match r {
            None => group_lookup(hm.deep_view(), tag@) is None,
            Some(lines) => group_lookup(hm.deep_view(), tag@) matches Some(entries)
                && lines.deep_view() == group_lines(entries, tag@),
        },
{
    let ghost hv = hm.deep_view();
    proof {
        assert(hv.len() == hm@.len());
        assert forall|k: int| 0 <= k < hm@.len() implies #[trigger] header_tags(hv)[k]
            == hm@[k].0@ by {
            assert(hv[k] == hm@[k].deep_view());
        }
    }
    let mut g: usize = 0;
    while g < hm.len()
        invariant
            g <= hm@.len(),
            hv == hm.deep_view(),
            hv.len() == hm@.len(),
            forall|k: int| 0 <= k < hm@.len() ==> #[trigger] header_tags(hv)[k] == hm@[k].0@,
            forall|k: int| 0 <= k < g ==> #[trigger] header_tags(hv)[k] != tag@,
        decreases hm@.len() - g,
    {
        if str_eq(hm[g].0.as_str(), tag) {
            proof {
                lemma_name_lookup_found(header_tags(hv), tag@, g as int);
            }
            let entries: &Vec<Vec<(String, String)>> = &hm[g].1;
            let ghost ev = hv[g as int].1;
            proof {
                assert(hv[g as int] == hm@[g as int].deep_view());
                assert(ev.len() == entries@.len());
            }
            let mut lines: Vec<String> = Vec::new();
            let mut j: usize = 0;
            while j < entries.len()
                invariant
                    j <= entries@.len(),
                    ev.len() == entries@.len(),
                    forall|k: int| 0 <= k < entries@.len() ==> ev[k] == #[trigger] entries@[k].deep_view(),
                    lines@.len() == j as nat,
                    forall|k: int|
                        0 <= k < j ==> #[trigger] lines@[k]@ == entry_text(ev[k], tag@),
                decreases entries@.len() - j,
            {
                lines.push(header_entry_line(&entries[j], tag));
                j += 1;
            }
            proof {
                assert(lines.deep_view() =~= group_lines(ev, tag@));
            }
            return Some(lines);
        }
        g += 1;
    }
    proof {
        lemma_name_lookup_none(header_tags(hv), tag@);
    }
    None
}

/// Join pre-formatted lines with newlines.
pub fn join_lines(lines: &Vec<String>) -> (r: String)
    ensures
        r@ == lines_join(lines.deep_view()),
{
    proof {
        reveal_strlit("\n");
        reveal_strlit("");
    }
    let mut s: String = String::from_str("");
    let mut i: usize = 0;
    while i < lines.len()
        invariant
            i <= lines@.len(),
            lines.deep_view().len() == lines@.len(),
            s@ == lines_join(lines.deep_view().take(i as int)),
        decreases lines@.len() - i,
    {
        if i > 0 {
            s = s.concat("\n");
        }
        s = s.concat(lines[i].as_str());
        proof {
            reveal_strlit("\n");
            let dv = lines.deep_view();
            assert(dv[i as int] == lines@[i as int]@);
            assert(dv.take(i as int + 1).drop_last() =~= dv.take(i as int));
            assert(dv.take(i as int + 1).last() == dv[i as int]);
            assert(s@ =~= lines_join(dv.take(i as int + 1)));
        }
        i += 1;
    }
    proof {
        assert(lines.deep_view().take(lines@.len() as int) =~= lines.deep_view());
    }
    s
}

/// The full header text: for each canonical tag the header holds, its
/// records' lines joined with newlines, and those blocks joined with
/// newlines in turn.
pub fn header_text(hm: &Vec<(String, Vec<Vec<(String, String)>>)>) -> (r: String)
    ensures
        r@ == lines_join(header_blocks(hm.deep_view(), canonical_tags())),
{
    let ghost hv = hm.deep_view();
    let ghost tags = canonical_tags();
    let mut parts: Vec<String> = Vec::new();
    proof {
        assert(tags.take(0) =~= Seq::<Seq<char>>::empty());
        assert(parts.deep_view() =~= header_blocks(hv, tags.take(0)));
    }
    let tag_list: [&str; 5] = ["HD", "SQ", "PG", "CL", "RG"];
    let mut t: usize = 0;
    while t < 5
        invariant
            t <= 5,
            hv == hm.deep_view(),
            tags == canonical_tags(),
            tag_list@.len() == 5,
            forall|k: int| 0 <= k < 5 ==> #[trigger] tag_list@[k]@ == tags[k],
            parts.deep_view() == header_blocks(hv, tags.take(t as int)),
        decreases 5 - t,
    {
        let ghost parts0 = parts.deep_view();
        match header_tag_lines(tag_list[t], hm) {
            None => (),
            Some(lines) => {
                parts.push(join_lines(&lines));
            },
        }
        proof {
            assert(tags.take(t as int + 1).drop_last() =~= tags.take(t as int));
            assert(tags.take(t as int + 1).last() == tags[t as int]);
            assert(parts.deep_view() =~= header_blocks(hv, tags.take(t as int + 1)));
        }
        t += 1;
    }
    proof {
        assert(tags.take(5) =~= tags);
    }
    join_lines(&parts)
}

/// The value of the first field carrying `key` in a header record, if any.
pub fn record_field(fields: &Vec<(String, String)>, key: &str) -> (r: Option<String>)
    ensures
        match r {
            None => field_lookup(fields.deep_view(), key@) is None,
            Some(v) => field_lookup(fields.deep_view(), key@) == Some(v@),
        },
{
    let ghost fv = fields.deep_view();
    proof {
        assert forall|k: int| 0 <= k < fields@.len() implies #[trigger] field_keys(fv)[k]
            == fields@[k].0@ by {
            assert(fv[k] == fields@[k].deep_view());
        }
    }
    let mut i: usize = 0;
    while i < fields.len()
        invariant
            i <= fields@.len(),
            fv == fields.deep_view(),
            fv.len() == fields@.len(),
            forall|k: int| 0 <= k < fields@.len() ==> #[trigger] field_keys(fv)[k] == fields@[k].0@,
            forall|k: int| 0 <= k < i ==> #[trigger] field_keys(fv)[k] != key@,
        decreases fields@.len() - i,
    {
        if str_eq(fields[i].0.as_str(), key) {
            proof {
                lemma_name_lookup_found(field_keys(fv), key@, i as int);
                assert(fv[i as int] == fields@[i as int].deep_view());
            }
            return Some(fields[i].1.clone());
        }
        i += 1;
    }
    proof {
        lemma_name_lookup_none(field_keys(fv), key@);
    }
    None
}

/// A copy of a header record with the first field carrying `key` set to
/// `val`: replaced in place when present, appended otherwise.
pub fn record_set_field(fields: &Vec<(String, String)>, key: &str, val: &str) -> (r: Vec<
    (String, String),
>)
    ensures
        r.deep_view() == set_field(fields.deep_view(), key@, val@),
{
    let ghost fv = fields.deep_view();
    proof {
        assert forall|k: int| 0 <= k < fields@.len() implies #[trigger] field_keys(fv)[k]
            == fields@[k].0@ by {
            assert(fv[k] == fields@[k].deep_view());
        }
    }
    let mut hit: Option<usize> = None;
    let mut i: usize = 0;
    while i < fields.len()
        invariant
            i <= fields@.len(),
            fv == fields.deep_view(),
            fv.len() == fields@.len(),
            forall|k: int| 0 <= k < fields@.len() ==> #[trigger] field_keys(fv)[k] == fields@[k].0@,
            match hit {
                None => forall|k: int| 0 <= k < i ==> #[trigger] field_keys(fv)[k] != key@,
                Some(h) => h < i && field_keys(fv)[h as int] == key@ && forall|k: int|
                    0 <= k < h ==> #[trigger] field_keys(fv)[k] != key@,
            },
        decreases fields@.len() - i,
    {
        if hit.is_none() && str_eq(fields[i].0.as_str(), key) {
            hit = Some(i);
        }
        i += 1;
    }
    let ghost target: FieldsView = set_field(fv, key@, val@);
    proof {
        match hit {
            None => lemma_name_lookup_none(field_keys(fv), key@),
            Some(h) => lemma_name_lookup_found(field_keys(fv), key@, h as int),
        }
    }
    let mut out: Vec<(String, String)> = Vec::new();
    let mut j: usize = 0;
    while j < fields.len()
        invariant
            j <= fields@.len(),
            fv == fields.deep_view(),
            fv.len() == fields@.len(),
            target == set_field(fv, key@, val@),
            match hit {
                Some(h) => h < fields@.len() && target == fv.update(h as int, (key@, val@)),
                None => target == fv.push((key@, val@)),
            },
            out@.len() == j as nat,
            out.deep_view() == target.take(j as int),
        decreases fields@.len() - j,
    {
        let replace: bool = match hit {
            Some(h) => j == h,
            None => false,
        };
        let ghost prev = out@;
        let ghost prevdv = out.deep_view();
        if replace {
            out.push((String::from_str(key), String::from_str(val)));
        } else {
            out.push((fields[j].0.clone(), fields[j].1.clone()));
        }
        proof {
            assert(out@ == prev.push(out@[j as int]));
            assert forall|k: int| 0 <= k < j as int implies #[trigger] out.deep_view()[k]
                == prevdv[k] by {
                assert(out@[k] == prev[k]);
            }
            assert(fv[j as int] == fields@[j as int].deep_view());
            assert(out.deep_view()[j as int] == target[j as int]);
            assert(out.deep_view() =~= target.take(j as int + 1));
        }
        j += 1;
    }
    if hit.is_none() {
        let ghost prev = out@;
        let ghost prevdv = out.deep_view();
        out.push((String::from_str(key), String::from_str(val)));
        proof {
            assert forall|k: int| 0 <= k < prev.len() as int implies #[trigger] out.deep_view()[k]
                == prevdv[k] by {
                assert(out@[k] == prev[k]);
            }
            assert(out.deep_view()[prev.len() as int] == (key@, val@));
            assert(out.deep_view() =~= target);
        }
    } else {
        proof {
            assert(out.deep_view() =~= target);
        }
    }
    out
}

/// The value of the `SO` (sort order) tag in the header's first `HD`
/// record, if that record carries one. The header must hold an `HD` group
/// with at least one record.
pub fn get_hdr_srt_tag(hm: &Vec<(String, Vec<Vec<(String, String)>>)>) -> (r: Option<String>)
    requires
        group_lookup(hm.deep_view(), "HD"@) matches Some(entries) && entries.len() >= 1,
    ensures
        match r {
            None => (group_lookup(hm.deep_view(), "HD"@) matches Some(entries) && field_lookup(
                entries[0],
                "SO"@,
            ) is None),
            Some(v) => (group_lookup(hm.deep_view(), "HD"@) matches Some(entries) && field_lookup(
                entries[0],
                "SO"@,
            ) == Some(v@)),
        },
{
    let ghost hv = hm.deep_view();
    proof {
        assert forall|k: int| 0 <= k < hm@.len() implies #[trigger] header_tags(hv)[k]
            == hm@[k].0@ by {
            assert(hv[k] == hm@[k].deep_view());
        }
    }
    let mut g: usize = 0;
    while g < hm.len()
        invariant
            g <= hm@.len(),
            hv == hm.deep_view(),
            hv.len() == hm@.len(),
            (group_lookup(hv, "HD"@) matches Some(entries) && entries.len() >= 1),
            forall|k: int| 0 <= k < hm@.len() ==> #[trigger] header_tags(hv)[k] == hm@[k].0@,
            forall|k: int| 0 <= k < g ==> #[trigger] header_tags(hv)[k] != "HD"@,
        decreases hm@.len() - g,
    {
        if str_eq(hm[g].0.as_str(), "HD") {
            proof {
                lemma_name_lookup_found(header_tags(hv), "HD"@, g as int);
                assert(hv[g as int] == hm@[g as int].deep_view());
            }
            let entries: &Vec<Vec<(String, String)>> = &hm[g].1;
            proof {
                assert(hv[g as int].1[0] == entries@[0].deep_view());
            }
            return record_field(&entries[0], "SO");
        }
        g += 1;
    }
    proof {
        lemma_name_lookup_none(header_tags(hv), "HD"@);
        assert(false);
    }
    None
}

} // verus!
