//! The change-log adapter: reconstruction of script resources from
//! the rows of the persistence schema, and the application of logged
//! events to the reflector.  The polling itself — timers and SQL — is
//! the runtime's; everything that decides is here.

use vstd::prelude::*;
use crate::reflector::Reflector;
use crate::tables::TableKey;
use crate::reflector::restarted_scripts;
use crate::reflector::script_key;
use crate::script::DeviceSelectorSet;
use crate::script::Manifest;
use crate::script::ParseError;
use crate::script::Policy;
use crate::script::Script;
use crate::script::ScriptSpec;
use crate::script::ScriptSqlite3;
use crate::script::ScriptStatus;
use crate::script::ScriptType;
use crate::script::Selector;
use crate::strmap::StrMap;
use crate::strmap::str_eq;

verus! {

/// The comma-separated segments of a match string, in order.  An
/// empty string has one empty segment, as the original splitting
/// does.
pub open spec fn split_segments(s: Seq<char>) -> Seq<Seq<char>>
    decreases s.len(),
{
    match s.index_of_first(',') {
        Some(c) => if 0 <= c < s.len() {
            seq![s.subrange(0, c)] + split_segments(s.subrange(c + 1, s.len() as int))
        } else {
            seq![s]
        },
        None => seq![s],
    }
}

/// The key-value reading of one segment: what stands before the first
/// colon maps to what stands after it, or to the empty string when
/// there is no colon.
pub open spec fn pair_of(seg: Seq<char>) -> (Seq<char>, Seq<char>) {
    match seg.index_of_first(':') {
        Some(c) => if 0 <= c < seg.len() {
            (seg.subrange(0, c), seg.subrange(c + 1, seg.len() as int))
        } else {
            (seg, Seq::empty())
        },
        None => (seg, Seq::empty()),
    }
}

/// The map the pairs collect into; a later pair overwrites an earlier
/// one under the same key.
pub open spec fn map_of_pairs(ps: Seq<(Seq<char>, Seq<char>)>) -> Map<Seq<char>, Seq<char>>
    decreases ps.len(),
{
    if ps.len() == 0 {
        Map::empty()
    } else {
        map_of_pairs(ps.drop_last()).insert(ps.last().0, ps.last().1)
    }
}

/// The meaning of a match string: its segments, read as pairs,
/// collected into a map.
pub open spec fn match_string_map(s: Seq<char>) -> Map<Seq<char>, Seq<char>> {
    map_of_pairs(split_segments(s).map_values(|seg: Seq<char>| pair_of(seg)))
}

/// Finds the first occurrence of a character at or after `from`.
#[verifier::loop_isolation(false)]
fn find_char_from(s: &str, from: usize, c: char) -> (r: Option<usize>)
    requires
        from <= s@.len(),
    ensures
        match r {
            Some(p) => from <= p < s@.len() && s@[p as int] == c && forall|j: int|
                from <= j < p ==> s@[j] != c,
            None => forall|j: int| from <= j < s@.len() ==> s@[j] != c,
        },
{
    let n = s.unicode_len();
    let mut p = from;
    while p < n
        invariant
            from <= p <= n,
            n == s@.len(),
            forall|j: int| from <= j < p ==> s@[j] != c,
        decreases n - p,
    {
        if s.get_char(p) == c {
            return Some(p);
        }
        p = p + 1;
    }
    None
}

/// The first occurrence found by a bounded scan is the first index of
/// the character in the subrange.
proof fn lemma_first_index(s: Seq<char>, from: int, c: char, p: int)
    requires
        0 <= from <= p < s.len(),
        s[p] == c,
        forall|j: int| from <= j < p ==> s[j] != c,
    ensures
        s.subrange(from, s.len() as int).index_of_first(c) == Some(p - from),
{
    let sub = s.subrange(from, s.len() as int);
    assert(sub[p - from] == c);
    assert(sub.contains(c));
    sub.index_of_first_ensures(c);
    let f = sub.index_of_first(c)->0;
    assert(sub[f] == c);
    if f < p - from {
        assert(s[from + f] == c);
        assert(false);
    }
    if f > p - from {
        assert(sub[p - from] != c);
        assert(false);
    }
}

/// A bounded scan that found nothing means the character is absent
/// from the subrange.
proof fn lemma_no_index(s: Seq<char>, from: int, c: char)
    requires
        0 <= from <= s.len(),
        forall|j: int| from <= j < s.len() ==> s[j] != c,
    ensures
        s.subrange(from, s.len() as int).index_of_first(c) is None,
{
    let sub = s.subrange(from, s.len() as int);
    sub.index_of_first_ensures(c);
    if sub.index_of_first(c) is Some {
        let f = sub.index_of_first(c)->0;
        assert(sub[f] == c);
        assert(s[from + f] == c);
    }
}

/// Collecting one more pair extends the collected map by one insert.
proof fn lemma_map_of_pairs_push(ps: Seq<(Seq<char>, Seq<char>)>, p: (Seq<char>, Seq<char>))
    ensures
        map_of_pairs(ps.push(p)) == map_of_pairs(ps).insert(p.0, p.1),
{
    assert(ps.push(p).drop_last() =~= ps);
    assert(ps.push(p).last() == p);
}

/// Parses a match string of the persistence schema into an alias map:
/// comma-separated segments, each read as `key:value` at the first
/// colon, a segment without a colon mapping to the empty string, a
/// later duplicate key overwriting an earlier one.
#[verifier::loop_isolation(false)]
pub fn parse_match_string(s: &str) -> (r: StrMap<String>)
    ensures
        r@.map_values(|v: String| v@) == match_string_map(s@),
{
    let n = s.unicode_len();
    let mut r: StrMap<String> = StrMap::new();
    let mut pos: usize = 0;
    let ghost segs_all = split_segments(s@);
    let ghost pairs_all = segs_all.map_values(|seg: Seq<char>| pair_of(seg));
    let mut done: Ghost<Seq<(Seq<char>, Seq<char>)>> = Ghost(Seq::empty());
    proof {
        assert(r@.map_values(|v: String| v@) =~= map_of_pairs(done@));
        assert(s@.subrange(0, n as int) =~= s@);
    }
    loop
        invariant
            pos <= n,
            n == s@.len(),
            segs_all == split_segments(s@),
            pairs_all == segs_all.map_values(|seg: Seq<char>| pair_of(seg)),
            r@.map_values(|v: String| v@) == map_of_pairs(done@),
            pairs_all =~= done@ + split_segments(s@.subrange(pos as int, n as int)).map_values(
                |seg: Seq<char>| pair_of(seg),
            ),
        decreases n - pos,
    {
        let ghost rest = s@.subrange(pos as int, n as int);
        let seg_end = match find_char_from(s, pos, ',') {
            Some(c) => c,
            None => n,
        };
        proof {
            if seg_end < n {
                lemma_first_index(s@, pos as int, ',', seg_end as int);
            } else {
                lemma_no_index(s@, pos as int, ',');
            }
        }
        let ghost seg = s@.subrange(pos as int, seg_end as int);
        proof {
            if seg_end < n {
                assert(rest.index_of_first(',') == Some(seg_end - pos));
                assert(rest.subrange(0, seg_end - pos) =~= seg);
                assert(rest.subrange(seg_end - pos + 1, rest.len() as int) =~= s@.subrange(
                    seg_end + 1,
                    n as int,
                ));
                assert(split_segments(rest) == seq![seg] + split_segments(
                    s@.subrange(seg_end + 1, n as int),
                ));
            } else {
                assert(rest.index_of_first(',') is None);
                assert(split_segments(rest) == seq![rest]);
                assert(rest =~= seg);
            }
        }
        let (key, value) = match find_char_from(s, pos, ':') {
            Some(c) if c < seg_end => {
                proof {
                    assert forall|j: int| 0 <= j < c - pos implies seg[j] != ':' by {
                        assert(seg[j] == s@[pos + j]);
                    }
                    assert(seg[c - pos] == ':');
                    lemma_first_index(seg, 0, ':', c - pos);
                    assert(seg.subrange(0, seg.len() as int) =~= seg);
                }
                (
                    String::from_str(s.substring_char(pos, c)),
                    String::from_str(s.substring_char(c + 1, seg_end)),
                )
            },
            _ => {
                proof {
                    assert forall|j: int| 0 <= j < seg.len() implies seg[j] != ':' by {
                        assert(seg[j] == s@[pos + j]);
                    }
                    seg.index_of_first_ensures(':');
                    if seg.index_of_first(':') is Some {
                        let f = seg.index_of_first(':')->0;
                        assert(seg[f] == ':');
                    }
                }
                (String::from_str(s.substring_char(pos, seg_end)), String::new())
            },
        };
        proof {
            assert(pair_of(seg) == (key@, value@)) by {
                match seg.index_of_first(':') {
                    Some(c) => {
                        assert(seg.subrange(0, c) =~= key@);
                        assert(seg.subrange(c + 1, seg.len() as int) =~= value@);
                    },
                    None => {
                        assert(seg =~= key@);
                        assert(value@ =~= Seq::<char>::empty());
                    },
                }
            }
        }
        let ghost before = r@.map_values(|v: String| v@);
        r.insert(key, value);
        proof {
            lemma_map_of_pairs_push(done@, pair_of(seg));
            done@ = done@.push(pair_of(seg));
            assert(r@.map_values(|v: String| v@) =~= map_of_pairs(done@));
            if seg_end < n {
                assert(split_segments(rest).map_values(|sg: Seq<char>| pair_of(sg)) =~= seq![
                    pair_of(seg),
                ] + split_segments(s@.subrange(seg_end + 1, n as int)).map_values(
                    |sg: Seq<char>| pair_of(sg),
                ));
                assert(pairs_all =~= done@ + split_segments(
                    s@.subrange(seg_end + 1, n as int),
                ).map_values(|sg: Seq<char>| pair_of(sg)));
            } else {
                assert(split_segments(rest).map_values(|sg: Seq<char>| pair_of(sg)) =~= seq![
                    pair_of(seg),
                ]);
                assert(done@ =~= pairs_all);
            }
        }
        if seg_end == n {
            break ;
        }
        pos = seg_end + 1;
    }
    r
}

/// The rebuilt selector pair described by the selector rows: the last
/// `readSelector` row and the last `writeSelector` row win, and a
/// side without a row stays unset.
pub open spec fn selectors_described(
    rows: Seq<Selector>,
    n: int,
) -> (Option<(Seq<char>, Seq<char>)>, Option<(Seq<char>, Seq<char>)>)
    decreases n,
{
    if n <= 0 {
        (None, None)
    } else {
        let prev = selectors_described(rows, n - 1);
        if rows[n - 1].selector_type@ == "readSelector"@ {
            (Some((rows[n - 1].match_types@, rows[n - 1].match_names@)), prev.1)
        } else if rows[n - 1].selector_type@ == "writeSelector"@ {
            (prev.0, Some((rows[n - 1].match_types@, rows[n - 1].match_names@)))
        } else {
            prev
        }
    }
}

/// Whether a selector set carries exactly the abilities and names of
/// one described side.
pub open spec fn selector_side_matches(
    side: DeviceSelectorSet,
    described: Option<(Seq<char>, Seq<char>)>,
) -> bool {
    match described {
        Some((types, names)) => {
            &&& side.match_abilities matches Some(ab) && ab@.map_values(|v: String| v@)
                == match_string_map(types)
            &&& side.match_names matches Some(mn) && mn@.map_values(|v: String| v@)
                == match_string_map(names)
        },
        None => side.match_abilities is None && side.match_names is None,
    }
}

/// Rebuilds the read and write selector of a script from its selector
/// rows.
#[verifier::loop_isolation(false)]
pub fn selectors_from_rows(rows: &Vec<Selector>) -> (r: (DeviceSelectorSet, DeviceSelectorSet))
    ensures
        selector_side_matches(r.0, selectors_described(rows@, rows@.len() as int).0),
        selector_side_matches(r.1, selectors_described(rows@, rows@.len() as int).1),
{
    let mut read_selector = DeviceSelectorSet { match_names: None, match_abilities: None };
    let mut write_selector = DeviceSelectorSet { match_names: None, match_abilities: None };
    let n = rows.len();
    let mut i: usize = 0;
    while i < n
        invariant
            i <= n,
            n == rows@.len(),
            selector_side_matches(read_selector, selectors_described(rows@, i as int).0),
            selector_side_matches(write_selector, selectors_described(rows@, i as int).1),
        decreases n - i,
    {
        let row = &rows[i];
        if str_eq(row.selector_type.as_str(), "readSelector") {
            read_selector = DeviceSelectorSet {
                match_abilities: Some(parse_match_string(row.match_types.as_str())),
                match_names: Some(parse_match_string(row.match_names.as_str())),
            };
        } else if str_eq(row.selector_type.as_str(), "writeSelector") {
            write_selector = DeviceSelectorSet {
                match_abilities: Some(parse_match_string(row.match_types.as_str())),
                match_names: Some(parse_match_string(row.match_names.as_str())),
            };
        }
        i = i + 1;
    }
    (read_selector, write_selector)
}

/// Rebuilds a script resource from its change-log rows: the base row,
/// the environment, the policy and the selector pair.  An unknown
/// script type is rejected.
pub fn create_script_struct(
    script: &ScriptSqlite3,
    env_vars: StrMap<String>,
    execute_policy: Policy,
    selectors: (DeviceSelectorSet, DeviceSelectorSet),
) -> (r: Result<Script, ParseError>)
    ensures
        match r {
            Ok(sc) => {
                &&& sc.spec.manifest.name == script.name
                &&& sc.spec.manifest.version == script.version
                &&& sc.spec.manifest.register is None
                &&& ScriptType::spec_of(script.script_type@) == Some(
                    sc.spec.manifest.script_type,
                )
                &&& sc.spec.env == env_vars
                &&& sc.spec.execute_policy == execute_policy
                &&& sc.spec.read_selector == selectors.0
                &&& sc.spec.write_selector == selectors.1
                &&& sc.status matches Some(st) && st.last_run == script.last_run as i64
                    && st.elapsed_time == script.elapsed_time as u32 && st.status == script.status
                    && st.message == script.message
            },
            Err(e) => e == ParseError::UnknownScriptType && ScriptType::spec_of(
                script.script_type@,
            ) is None,
        },
{
    let script_type = match ScriptType::from_str(&script.script_type) {
        Ok(t) => t,
        Err(e) => {
            return Err(e);
        },
    };
    let manifest = Manifest {
        script_type,
        name: script.name.clone(),
        version: script.version.clone(),
        register: None,
    };
    let spec = ScriptSpec {
        read_selector: selectors.0,
        write_selector: selectors.1,
        env: env_vars,
        manifest,
        execute_policy,
    };
    let elapsed = if script.elapsed_time >= 0 {
        script.elapsed_time as u32
    } else {
        #[verifier::truncate]
        let t = script.elapsed_time as u32;
        t
    };
    let status = ScriptStatus {
        last_run: script.last_run as i64,
        elapsed_time: elapsed,
        status: script.status,
        message: script.message.clone(),
    };
    Ok(Script { spec, status: Some(status) })
}

/// Applies one change-log event to the reflector: an inserted or
/// updated script is re-added, a deleted one removed, anything else —
/// including the logged error kind — changes nothing.
pub fn apply_change_event(reflector: &mut Reflector, event_type: &str, script: Script)
    ensures
        final(reflector).devices() == old(reflector).devices(),
        old(reflector).consistent() ==> final(reflector).consistent(),
        (event_type@ == "Inserted"@ || event_type@ == "Updated"@) ==> final(reflector).scripts()
            == old(reflector).scripts().insert(script_key(script), script),
        event_type@ == "Deleted"@ ==> final(reflector).scripts()
            == old(reflector).scripts().remove(script_key(script))
            && final(reflector).selectors().dom() == old(reflector).selectors().dom()
            && (forall|k: TableKey, q: TableKey|
                old(reflector).selectors().contains_key(k)
                    ==> (#[trigger] final(reflector).selectors()[k].contains(q)
                    <==> (old(reflector).selectors()[k].contains(q) && q != script_key(
                    script,
                )))),
        (event_type@ != "Inserted"@ && event_type@ != "Updated"@ && event_type@ != "Deleted"@)
            ==> final(reflector).scripts() == old(reflector).scripts()
            && final(reflector).selectors() == old(reflector).selectors(),
{
    proof {
        reveal_strlit("Inserted");
        reveal_strlit("Updated");
        reveal_strlit("Deleted");
        assert("Inserted"@.len() == 8 && "Deleted"@.len() == 7 && "Updated"@.len() == 7);
        assert("Updated"@[0] == 'U' && "Deleted"@[0] == 'D');
        assert("Inserted"@ != "Deleted"@ && "Updated"@ != "Deleted"@ && "Inserted"@
            != "Updated"@);
    }
    if str_eq(event_type, "Inserted") {
        reflector.add_script(script);
    } else if str_eq(event_type, "Updated") {
        reflector.add_script(script);
    } else if str_eq(event_type, "Deleted") {
        let _present = reflector.remove_script(&script);
    }
}

/// Applies a bootstrap scan: every existing script is re-added, as on
/// a watch restart.
pub fn import_existing_scripts(reflector: &mut Reflector, scripts: Vec<Script>)
    ensures
        final(reflector).devices() == old(reflector).devices(),
        final(reflector).scripts() == restarted_scripts(old(reflector).scripts(), scripts@),
        old(reflector).consistent() ==> final(reflector).consistent(),
{
    reflector.restart_script(scripts);
}

} // verus!
