use vstd::prelude::*;
use crate::text::{
    find_first, is_white, lemma_find_from, lemma_first_at, lemma_occurs_across,
    lemma_occurs_in_subrange, lemma_trim_fixed, lemma_trim_keeps_opening, lemma_trim_range,
    occurs_at, trim,
};
use crate::sections::{
    ASSISTANT_TURN_OPEN, BLOCK_SEPARATOR, DEVICE_OUTPUT_MARKER, EXPECTED_OUTPUT_MARKER,
    LINE_BREAK, REQUIREMENT_MARKER, ReformatError, SYSTEM_TERMINATOR, SYSTEM_TURN_OPEN,
    USER_TURN_OPEN, SectionTexts, extract_spec, raw_sections, reorder_chat_spec,
    reorder_plain_spec, section_bounds,
};

verus! {

/// A document that lacks the system prompt terminator, the requirement marker
/// or the device output marker is refused as missing a section, under both
/// layouts.
pub proof fn lemma_missing_marker_refused(s: Seq<char>)
    requires
        (forall|i: int| !occurs_at(s, SYSTEM_TERMINATOR@, i)) || (forall|i: int|
            !occurs_at(s, REQUIREMENT_MARKER@, i)) || (forall|i: int|
            !occurs_at(s, DEVICE_OUTPUT_MARKER@, i)),
    ensures
        reorder_plain_spec(s) == Err::<Seq<char>, ReformatError>(ReformatError::MissingSection),
        reorder_chat_spec(s) == Err::<Seq<char>, ReformatError>(ReformatError::MissingSection),
{
    reveal_strlit("explain exactly why.\n\n");
    reveal_strlit("Requirement Document:");
    reveal_strlit("Device Output:");
    lemma_find_from(s, SYSTEM_TERMINATOR@, 0);
    lemma_find_from(s, REQUIREMENT_MARKER@, 0);
    lemma_find_from(s, DEVICE_OUTPUT_MARKER@, 0);
}

/// A document whose first device output marker comes before its first
/// requirement marker is refused as out of order, under both layouts.
pub proof fn lemma_device_before_requirement_refused(s: Seq<char>, d: int, q: int)
    requires
        exists|i: int| occurs_at(s, SYSTEM_TERMINATOR@, i),
        occurs_at(s, DEVICE_OUTPUT_MARKER@, d),
        occurs_at(s, REQUIREMENT_MARKER@, q),
        d < q,
        forall|j: int| 0 <= j < q ==> !occurs_at(s, REQUIREMENT_MARKER@, j),
    ensures
        reorder_plain_spec(s) == Err::<Seq<char>, ReformatError>(
            ReformatError::OutOfOrderSections,
        ),
        reorder_chat_spec(s) == Err::<Seq<char>, ReformatError>(
            ReformatError::OutOfOrderSections,
        ),
{
    reveal_strlit("explain exactly why.\n\n");
    reveal_strlit("Requirement Document:");
    reveal_strlit("Device Output:");
    lemma_find_from(s, SYSTEM_TERMINATOR@, 0);
    lemma_find_from(s, REQUIREMENT_MARKER@, 0);
    lemma_find_from(s, DEVICE_OUTPUT_MARKER@, 0);
}

/// Nothing between the first requirement marker and the end of a document is
/// lost: the requirement, device output and expected output sections, before
/// trimming, make up exactly that text, the system section is the text up to
/// the end of the terminator, and each extracted section is its untrimmed text
/// trimmed.
pub proof fn lemma_sections_cover(s: Seq<char>)
    requires
        extract_spec(s) is Ok,
    ensures
        ({
            let raw = raw_sections(s);
            let x = extract_spec(s)->Ok_0;
            let (te, rs, ds, de) = section_bounds(s);
            &&& find_first(s, REQUIREMENT_MARKER@) == Some(rs)
            &&& raw.system == s.subrange(0, te)
            &&& raw.requirement + raw.device_output + raw.expected_output == s.subrange(
                rs,
                s.len() as int,
            )
            &&& x.system == trim(raw.system)
            &&& x.requirement == trim(raw.requirement)
            &&& x.device_output == trim(raw.device_output)
            &&& x.expected_output == trim(raw.expected_output)
        }),
{
    reveal_strlit("explain exactly why.\n\n");
    reveal_strlit("Requirement Document:");
    reveal_strlit("Device Output:");
    reveal_strlit("Expected Output Format:");
    lemma_find_from(s, SYSTEM_TERMINATOR@, 0);
    lemma_find_from(s, REQUIREMENT_MARKER@, 0);
    lemma_find_from(s, DEVICE_OUTPUT_MARKER@, 0);
    lemma_find_from(s, EXPECTED_OUTPUT_MARKER@, 0);
    let raw = raw_sections(s);
    let (te, rs, ds, de) = section_bounds(s);
    assert(raw.requirement + raw.device_output + raw.expected_output =~= s.subrange(
        rs,
        s.len() as int,
    ));
}

/// A document without an expected output format marker has an empty expected
/// output section: the plain layout holds just three blocks, and the chat
/// layout leaves an empty line in its place.
pub proof fn lemma_expected_output_optional(s: Seq<char>)
    requires
        extract_spec(s) is Ok,
        forall|i: int| !occurs_at(s, EXPECTED_OUTPUT_MARKER@, i),
    ensures
        ({
            let x = extract_spec(s)->Ok_0;
            &&& x.expected_output.len() == 0
            &&& reorder_plain_spec(s) == Ok::<Seq<char>, ReformatError>(
                x.system + BLOCK_SEPARATOR@ + x.requirement + BLOCK_SEPARATOR@ + x.device_output,
            )
            &&& reorder_chat_spec(s) == Ok::<Seq<char>, ReformatError>(
                SYSTEM_TURN_OPEN@ + x.system + LINE_BREAK@ + x.requirement + LINE_BREAK@
                    + USER_TURN_OPEN@ + x.device_output + ASSISTANT_TURN_OPEN@,
            )
        }),
{
    reveal_strlit("Expected Output Format:");
    lemma_find_from(s, EXPECTED_OUTPUT_MARKER@, 0);
    let x = extract_spec(s)->Ok_0;
    let raw = raw_sections(s);
    assert(raw.expected_output =~= Seq::<char>::empty());
    assert(x.expected_output =~= Seq::<char>::empty());
    assert(x.system + LINE_BREAK@ + x.requirement + LINE_BREAK@ + x.expected_output
        =~= x.system + LINE_BREAK@ + x.requirement + LINE_BREAK@);
}

/// Reordering a document without an expected output format marker into the
/// plain layout, and then reordering the result again, gives the same text:
/// the sections are found again, in the same order, and trimming leaves them
/// as they were.
pub proof fn lemma_plain_reorder_idempotent(s: Seq<char>)
    requires
        reorder_plain_spec(s) is Ok,
        forall|i: int| !occurs_at(s, EXPECTED_OUTPUT_MARKER@, i),
    ensures
        reorder_plain_spec(reorder_plain_spec(s)->Ok_0) == reorder_plain_spec(s),
{
    reveal_strlit("explain exactly why.\n\n");
    reveal_strlit("Requirement Document:");
    reveal_strlit("Device Output:");
    reveal_strlit("Expected Output Format:");
    reveal_strlit("\n\n");
    let term = SYSTEM_TERMINATOR@;
    let req = REQUIREMENT_MARKER@;
    let dev = DEVICE_OUTPUT_MARKER@;
    let exp = EXPECTED_OUTPUT_MARKER@;
    let w = BLOCK_SEPARATOR@;
    lemma_expected_output_optional(s);
    lemma_find_from(s, term, 0);
    lemma_find_from(s, req, 0);
    lemma_find_from(s, dev, 0);
    lemma_find_from(s, exp, 0);
    let x = extract_spec(s)->Ok_0;
    let (te, rs, ds, de) = section_bounds(s);
    let t = te - term.len();
    let a = x.system;
    let b = x.requirement;
    let c = x.device_output;
    let lo_a = lemma_trim_range(s, 0, te);
    let lo_b = lemma_trim_range(s, rs, ds);
    let lo_c = lemma_trim_range(s, ds, de);
    assert(de == s.len());
    assert(a == s.subrange(lo_a, lo_a + a.len()));
    assert(b == s.subrange(lo_b, lo_b + b.len()));
    assert(c == s.subrange(lo_c, lo_c + c.len()));

    // The system section ends with the terminator's last visible character.
    assert(s.subrange(t, te)[19] == s[te - 3]);
    assert(s.subrange(t, te)[20] == s[te - 2]);
    assert(s.subrange(t, te)[21] == s[te - 1]);
    assert(s.subrange(t, te)[0] == s[t]);
    assert(!is_white(s[te - 3]) && is_white(s[te - 2]) && is_white(s[te - 1]) && !is_white(s[t]));
    assert(lo_a + a.len() == te - 2) by {
        if lo_a + a.len() < te - 2 {
            assert(is_white(s[te - 3]));
        }
        if lo_a + a.len() > te - 2 {
            assert(a.last() == s[lo_a + a.len() - 1]);
        }
    }
    assert(lo_a <= t) by {
        if lo_a > t {
            assert(is_white(s[t]));
        }
    }
    assert(a + w =~= s.subrange(lo_a, te));

    // The requirement and device output sections open with their markers.
    assert(rs + req.len() <= ds) by {
        if ds < rs + req.len() {
            let k = ds - rs;
            assert(s.subrange(rs, rs + req.len())[k] == s[ds]);
            assert(s.subrange(ds, ds + dev.len())[0] == s[ds]);
            if k + 1 < req.len() {
                assert(s.subrange(rs, rs + req.len())[k + 1] == s[ds + 1]);
                assert(s.subrange(ds, ds + dev.len())[1] == s[ds + 1]);
            }
        }
    }
    assert(s.subrange(rs, ds).subrange(0, req.len() as int) =~= s.subrange(rs, rs + req.len()));
    lemma_trim_keeps_opening(s.subrange(rs, ds), req);
    assert(s.subrange(ds, de).subrange(0, dev.len() as int) =~= s.subrange(ds, ds + dev.len()));
    lemma_trim_keeps_opening(s.subrange(ds, de), dev);

    let l = a + w + b;
    let r = b + w + c;
    let out = l + w + c;
    assert(out =~= a + w + r);
    assert(reorder_plain_spec(s)->Ok_0 == out);
    lemma_occurs_across(a, w, r, req);
    lemma_occurs_across(b, w, c, req);
    lemma_occurs_across(l, w, c, dev);
    lemma_occurs_across(a, w, b, dev);
    lemma_occurs_across(l, w, c, exp);
    lemma_occurs_across(a, w, b, exp);

    // Where the markers stand in the output.
    let t2 = lo_a + a.len() + 2 - term.len() - lo_a;
    assert(out.subrange(t2, t2 + term.len()) =~= s.subrange(t, te));
    assert forall|j: int| 0 <= j < t2 implies !occurs_at(out, term, j) by {
        if occurs_at(out, term, j) {
            assert(out.subrange(j, j + term.len()) =~= s.subrange(lo_a + j, lo_a + j + term.len()));
            assert(occurs_at(s, term, lo_a + j));
        }
    }
    lemma_first_at(out, term, t2);
    assert forall|j: int| 0 <= j < a.len() + w.len() implies !occurs_at(out, req, j) by {
        if occurs_at(out, req, j) {
            lemma_occurs_in_subrange(s, req, lo_a, lo_a + a.len(), j);
        }
    }
    assert(occurs_at(r, req, 0));
    lemma_first_at(out, req, (a.len() + w.len()) as int);
    assert forall|j: int| 0 <= j < l.len() + w.len() implies !occurs_at(out, dev, j) by {
        if occurs_at(out, dev, j) {
            if j + dev.len() <= a.len() {
                lemma_occurs_in_subrange(s, dev, lo_a, lo_a + a.len(), j);
            } else {
                lemma_occurs_in_subrange(s, dev, lo_b, lo_b + b.len(), j - a.len() - w.len());
            }
        }
    }
    lemma_first_at(out, dev, (l.len() + w.len()) as int);
    assert forall|j: int| !occurs_at(out, exp, j) by {
        if occurs_at(out, exp, j) {
            if j + exp.len() <= l.len() {
                if j + exp.len() <= a.len() {
                    lemma_occurs_in_subrange(s, exp, lo_a, lo_a + a.len(), j);
                } else {
                    lemma_occurs_in_subrange(s, exp, lo_b, lo_b + b.len(), j - a.len() - w.len());
                }
            } else {
                lemma_occurs_in_subrange(s, exp, lo_c, lo_c + c.len(), j - l.len() - w.len());
            }
        }
    }
    lemma_find_from(out, exp, 0);

    // The sections of the output are those of the document.
    let raw = raw_sections(out);
    assert(raw.system =~= a + w);
    assert(raw.requirement =~= b + w);
    assert(raw.device_output =~= c + Seq::<char>::empty());
    assert(raw.expected_output =~= Seq::<char>::empty() + Seq::<char>::empty());
    lemma_trim_fixed(a, w);
    lemma_trim_fixed(b, w);
    lemma_trim_fixed(c, Seq::<char>::empty());
    lemma_trim_fixed(Seq::<char>::empty(), Seq::<char>::empty());
    assert(x.expected_output =~= Seq::<char>::empty());
}

} // verus!
