use vstd::prelude::*;

verus! {

/// ASCII line feed.
pub const NEWLINE: u8 = 10;

/// ASCII carriage return.
pub const CARRIAGE_RETURN: u8 = 13;

/// The ASCII bytes of `#type`, which starts a stage marker line.
pub open spec fn marker_prefix() -> Seq<u8> {
    seq![35u8, 116, 121, 112, 101]
}

/// The bytes of `#type vertex`.
pub open spec fn vertex_marker() -> Seq<u8> {
    marker_prefix() + seq![32u8, 118, 101, 114, 116, 101, 120]
}

/// The bytes of `#type fragment`.
pub open spec fn fragment_marker() -> Seq<u8> {
    marker_prefix() + seq![32u8, 102, 114, 97, 103, 109, 101, 110, 116]
}

pub open spec fn has_prefix(s: Seq<u8>, prefix: Seq<u8>) -> bool {
    prefix.len() <= s.len() && s.take(prefix.len() as int) == prefix
}

/// Index of the first newline of `s` at or after `from`, or `s.len()` when there is none.
pub open spec fn next_newline(s: Seq<u8>, from: int) -> int
    decreases s.len() - from,
{
    if from >= s.len() {
        s.len() as int
    } else if s[from] == NEWLINE {
        from
    } else {
        next_newline(s, from + 1)
    }
}

/// A line that ended with a newline loses one carriage return before it.
pub open spec fn strip_cr(line: Seq<u8>) -> Seq<u8> {
    if line.len() > 0 && line.last() == CARRIAGE_RETURN {
        line.drop_last()
    } else {
        line
    }
}

/// The lines of `s`: split at each newline, the newline dropped, and a carriage return
/// right before it dropped too. A final newline does not start another line.
pub open spec fn split_lines(s: Seq<u8>) -> Seq<Seq<u8>>
    decreases s.len() via split_lines_decreases
{
    if s.len() == 0 {
        seq![]
    } else {
        let nl = next_newline(s, 0);
        if nl >= s.len() {
            seq![s]
        } else {
            seq![strip_cr(s.take(nl))] + split_lines(s.skip(nl + 1))
        }
    }
}

#[via_fn]
proof fn split_lines_decreases(s: Seq<u8>) {
    if s.len() > 0 {
        lemma_next_newline_bounds(s, 0);
    }
}

/// The state of splitting after some lines: the text gathered for each stage, the stage
/// that lines currently go to, and the name of the first unknown stage met, if any.
pub struct SplitState {
    pub vertex: Seq<u8>,
    pub fragment: Seq<u8>,
    pub target: Option<bool>,
    pub unknown: Option<Seq<u8>>,
}

/// Takes one line. A marker line picks the stage that the lines after it go to; other
/// lines go, each followed by a newline, to the stage picked last, or nowhere before the
/// first marker.
pub open spec fn split_step(st: SplitState, line: Seq<u8>) -> SplitState {
    if st.unknown is Some {
        st
    } else if has_prefix(line, marker_prefix()) {
        if has_prefix(line, vertex_marker()) {
            SplitState { target: Some(true), ..st }
        } else if has_prefix(line, fragment_marker()) {
            SplitState { target: Some(false), ..st }
        } else {
            SplitState { unknown: Some(line.skip(marker_prefix().len() as int)), ..st }
        }
    } else {
        match st.target {
            Some(true) => SplitState { vertex: st.vertex + line.push(NEWLINE), ..st },
            Some(false) => SplitState { fragment: st.fragment + line.push(NEWLINE), ..st },
            None => st,
        }
    }
}

pub open spec fn split_fold(lines: Seq<Seq<u8>>) -> SplitState
    decreases lines.len(),
{
    if lines.len() == 0 {
        SplitState { vertex: seq![], fragment: seq![], target: None, unknown: None }
    } else {
        split_step(split_fold(lines.drop_last()), lines.last())
    }
}

/// The vertex and fragment sources of a shader file.
pub struct ShaderSources {
    pub vertex: Vec<u8>,
    pub fragment: Vec<u8>,
}

/// A marker line named a stage other than `vertex` or `fragment`; `name` is the rest of
/// the line after `#type`.
pub struct UnknownShaderType {
    pub name: Vec<u8>,
}

proof fn lemma_next_newline_bounds(s: Seq<u8>, from: int)
    requires
        0 <= from <= s.len(),
    ensures
        from <= next_newline(s, from) <= s.len(),
        next_newline(s, from) < s.len() ==> s[next_newline(s, from)] == NEWLINE,
        forall|k: int| from <= k < next_newline(s, from) ==> s[k] != NEWLINE,
    decreases s.len() - from,
{
    if from < s.len() && s[from] != NEWLINE {
        lemma_next_newline_bounds(s, from + 1);
    }
}

proof fn lemma_next_newline_skip(s: Seq<u8>, pos: int, from: int)
    requires
        0 <= pos <= from <= s.len(),
    ensures
        next_newline(s.skip(pos), from - pos) == next_newline(s, from) - pos,
    decreases s.len() - from,
{
    if from < s.len() && s[from] != NEWLINE {
        lemma_next_newline_skip(s, pos, from + 1);
    }
}

fn starts_with(line: &Vec<u8>, prefix: &[u8]) -> (r: bool)
    ensures
        r == has_prefix(line@, prefix@),
{
    if prefix.len() > line.len() {
        return false;
    }
    let mut i: usize = 0;
    while i < prefix.len()
        invariant
            prefix@.len() <= line@.len(),
            i <= prefix@.len(),
            forall|k: int| 0 <= k < i ==> line@[k] == prefix@[k],
        decreases prefix@.len() - i,
    {
        if line[i] != prefix[i] {
            assert(line@.take(prefix@.len() as int)[i as int] != prefix@[i as int]);
            return false;
        }
        i += 1;
    }
    assert(line@.take(prefix@.len() as int) =~= prefix@);
    true
}

/// Splits a single-file shader source into its vertex and fragment stages.
///
/// The file is read line by line. A line that starts with `#type vertex` or
/// `#type fragment` sends the lines after it to that stage; any other line that starts
/// with `#type` is an error naming the unknown stage.
pub fn split_shader_source(source: &[u8]) -> (r: Result<ShaderSources, UnknownShaderType>)
    ensures
        ({
            let st = split_fold(split_lines(source@));
            match r {
                Ok(sources) => st.unknown is None && sources.vertex@ == st.vertex && sources.fragment@
                    == st.fragment,
                Err(e) => st.unknown == Some(e.name@),
            }
        }),
{
    let prefix: [u8; 5] = [35, 116, 121, 112, 101];
    let vertex_mark: [u8; 12] = [35, 116, 121, 112, 101, 32, 118, 101, 114, 116, 101, 120];
    let fragment_mark: [u8; 14] = [
        35, 116, 121, 112, 101, 32, 102, 114, 97, 103, 109, 101, 110, 116,
    ];
    proof {
        assert(prefix@ =~= marker_prefix());
        assert(vertex_mark@ =~= vertex_marker());
        assert(fragment_mark@ =~= fragment_marker());
    }
    let mut vertex: Vec<u8> = Vec::new();
    let mut fragment: Vec<u8> = Vec::new();
    let mut target: Option<bool> = None;
    let mut unknown: Option<Vec<u8>> = None;
    let ghost mut done: Seq<Seq<u8>> = seq![];
    assert(source@.skip(0) =~= source@);
    assert(done + split_lines(source@) =~= split_lines(source@));
    let mut pos: usize = 0;
    while pos < source.len()
        invariant
            pos <= source@.len(),
            prefix@ == marker_prefix(),
            vertex_mark@ == vertex_marker(),
            fragment_mark@ == fragment_marker(),
            split_lines(source@) == done + split_lines(source@.skip(pos as int)),
            ({
                let st = split_fold(done);
                &&& st.vertex == vertex@
                &&& st.fragment == fragment@
                &&& st.target == target
                &&& st.unknown == match unknown {
                    Some(u) => Some(u@),
                    None => None,
                }
            }),
        decreases source@.len() - pos,
    {
        let ghost rest = source@.skip(pos as int);
        let mut end: usize = pos;
        while end < source.len() && source[end] != NEWLINE
            invariant
                pos <= end <= source@.len(),
                next_newline(source@, pos as int) == next_newline(source@, end as int),
            decreases source@.len() - end,
        {
            end += 1;
        }
        let mut line: Vec<u8> = Vec::new();
        let mut k: usize = pos;
        while k < end
            invariant
                pos <= k <= end <= source@.len(),
                line@ == source@.subrange(pos as int, k as int),
            decreases end - k,
        {
            line.push(source[k]);
            k += 1;
            assert(line@ =~= source@.subrange(pos as int, k as int));
        }
        let ends_with_newline = end < source.len();
        if ends_with_newline && line.len() > 0 && line[line.len() - 1] == CARRIAGE_RETURN {
            line.pop();
        }
        proof {
            lemma_next_newline_skip(source@, pos as int, pos as int);
            assert(next_newline(rest, 0) == end - pos);
            if ends_with_newline {
                assert(rest.take(end - pos) =~= source@.subrange(pos as int, end as int));
                assert(rest.skip(end - pos + 1) =~= source@.skip(end + 1));
                assert(split_lines(rest) == seq![line@] + split_lines(source@.skip(end + 1)));
            } else {
                assert(rest =~= source@.subrange(pos as int, end as int));
                assert(source@.skip(end as int) =~= Seq::<u8>::empty());
                assert(split_lines(rest) == seq![line@]);
                assert(split_lines(Seq::<u8>::empty()) =~= Seq::<Seq<u8>>::empty());
            }
        }
        if unknown.is_none() {
            if starts_with(&line, &prefix) {
                if starts_with(&line, &vertex_mark) {
                    target = Some(true);
                } else if starts_with(&line, &fragment_mark) {
                    target = Some(false);
                } else {
                    let mut name: Vec<u8> = Vec::new();
                    let mut j: usize = 5;
                    while j < line.len()
                        invariant
                            5 <= line@.len(),
                            5 <= j <= line@.len(),
                            name@ == line@.subrange(5, j as int),
                        decreases line@.len() - j,
                    {
                        name.push(line[j]);
                        j += 1;
                        assert(name@ =~= line@.subrange(5, j as int));
                    }
                    assert(name@ =~= line@.skip(5));
                    unknown = Some(name);
                }
            } else {
                match target {
                    Some(true) => {
                        let ghost before = vertex@;
                        let mut j: usize = 0;
                        while j < line.len()
                            invariant
                                j <= line@.len(),
                                vertex@ == before + line@.take(j as int),
                            decreases line@.len() - j,
                        {
                            vertex.push(line[j]);
                            j += 1;
                            assert(vertex@ =~= before + line@.take(j as int));
                        }
                        vertex.push(NEWLINE);
                        assert(vertex@ =~= before + line@.push(NEWLINE));
                    },
                    Some(false) => {
                        let ghost before = fragment@;
                        let mut j: usize = 0;
                        while j < line.len()
                            invariant
                                j <= line@.len(),
                                fragment@ == before + line@.take(j as int),
                            decreases line@.len() - j,
                        {
                            fragment.push(line[j]);
                            j += 1;
                            assert(fragment@ =~= before + line@.take(j as int));
                        }
                        fragment.push(NEWLINE);
                        assert(fragment@ =~= before + line@.push(NEWLINE));
                    },
                    None => {},
                }
            }
        }
        proof {
            assert((done.push(line@)).drop_last() =~= done);
            done = done.push(line@);
            if ends_with_newline {
                assert(split_lines(source@) =~= done + split_lines(source@.skip(end + 1)));
            } else {
                assert(split_lines(source@) =~= done + split_lines(source@.skip(end as int)));
            }
        }
        pos = if ends_with_newline {
            end + 1
        } else {
            end
        };
    }
    proof {
        assert(source@.skip(pos as int) =~= Seq::<u8>::empty());
        assert(split_lines(source@) =~= done);
    }
    match unknown {
        Some(name) => Err(UnknownShaderType { name }),
        None => Ok(ShaderSources { vertex, fragment }),
    }
}

} // verus!
