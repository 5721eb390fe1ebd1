//! Today's entry in a weekly file: the header that opens it, the line that
//! starts a task, and the placeholder that ending a task overwrites.
use vstd::prelude::*;
use crate::calendar::Moment;
use crate::layout::{
    clock_time, clock_time_bytes, header_text, lemma_clock_time_bytes, lemma_header_opens_with_capital,
    COLON, DASH, NEWLINE, SPACE, UNDERSCORE,
};

verus! {

/// `p` stands in `c` at offset `i`.
pub open spec fn occurs_at(c: Seq<u8>, p: Seq<u8>, i: int) -> bool {
    0 <= i && i + p.len() <= c.len() && c.subrange(i, i + p.len()) == p
}

/// The greatest offset at which `p` stands wholly before `end`, if any.
pub open spec fn last_before(c: Seq<u8>, p: Seq<u8>, end: int) -> Option<int>
    decreases end + 1,
{
    if end < p.len() {
        None
    } else if occurs_at(c, p, end - p.len()) {
        Some(end - p.len())
    } else {
        last_before(c, p, end - 1)
    }
}

/// `p` stands somewhere in `c`.
pub open spec fn contains(c: Seq<u8>, p: Seq<u8>) -> bool {
    last_before(c, p, c.len() as int) is Some
}

/// The text that stands for an end time not yet recorded, `__:__`.
pub open spec fn placeholder() -> Seq<u8> {
    seq![UNDERSCORE, UNDERSCORE, COLON, UNDERSCORE, UNDERSCORE]
}

/// Between a line's start and its end time stand `HH:MM - `, eight bytes.
pub open spec fn task_prefix_len() -> int {
    8
}

/// The byte before the start time of a task line whose end time stands at `i`
/// is a newline.
pub open spec fn starts_task_line(c: Seq<u8>, i: int) -> bool {
    i > task_prefix_len() && i <= c.len() && c[i - task_prefix_len() - 1] == NEWLINE
}

/// The search for the unfinished task of today, looking at the windows
/// `c[..end]`: the latest placeholder in the window is taken when it follows
/// the header and starts a task line; a placeholder that does not start a
/// task line shrinks the window to what precedes it; one at or before the
/// header ends the search.
pub open spec fn unfinished_in(c: Seq<u8>, header_offset: int, end: int) -> Option<int>
    decreases end,
{
    if end < 5 {
        None
    } else if occurs_at(c, placeholder(), end - 5) {
        let i = end - 5;
        if i <= header_offset {
            None
        } else if starts_task_line(c, i) {
            Some(i)
        } else {
            unfinished_in(c, header_offset, i)
        }
    } else {
        unfinished_in(c, header_offset, end - 1)
    }
}

/// Offset of the last occurrence of `header` in `c`.
pub open spec fn header_offset(c: Seq<u8>, header: Seq<u8>) -> int {
    last_before(c, header, c.len() as int)->0
}

/// Offset of the placeholder of today's unfinished task, if there is one.
pub open spec fn unfinished_task(c: Seq<u8>, header: Seq<u8>) -> Option<int> {
    unfinished_in(c, header_offset(c, header), c.len() as int)
}

/// `c` with the bytes at `i` replaced by `t`.
pub open spec fn overwrite(c: Seq<u8>, i: int, t: Seq<u8>) -> Seq<u8> {
    c.subrange(0, i) + t + c.subrange(i + t.len(), c.len() as int)
}

/// The contents after ending today's unfinished task at `hour:minute`.
pub open spec fn ended(c: Seq<u8>, header: Seq<u8>, hour: int, minute: int) -> Seq<u8> {
    match unfinished_task(c, header) {
        Some(i) => overwrite(c, i, clock_time(hour, minute)),
        None => c,
    }
}

/// What is appended so that today's header is present.
pub open spec fn header_addition_text(c: Seq<u8>, header: Seq<u8>) -> Seq<u8> {
    if contains(c, header) {
        Seq::empty()
    } else {
        header + seq![NEWLINE, NEWLINE]
    }
}

/// The newlines that leave exactly one blank line between `c` and a new task line.
pub open spec fn separator(c: Seq<u8>) -> Seq<u8> {
    if c.len() >= 2 && c[c.len() - 1] == NEWLINE && c[c.len() - 2] == NEWLINE {
        Seq::empty()
    } else if c.len() >= 1 && c[c.len() - 1] == NEWLINE {
        seq![NEWLINE]
    } else {
        seq![NEWLINE, NEWLINE]
    }
}

/// `HH:MM - __:__` and a newline.
pub open spec fn task_line(hour: int, minute: int) -> Seq<u8> {
    clock_time(hour, minute) + seq![SPACE, DASH, SPACE] + placeholder() + seq![NEWLINE]
}

/// What starting a task at `hour:minute` appends to `c`.
pub open spec fn task_start_text(c: Seq<u8>, hour: int, minute: int) -> Seq<u8> {
    separator(c) + task_line(hour, minute)
}

/// `p` stands in `c` at offset `start`.
pub fn matches_at(c: &Vec<u8>, p: &Vec<u8>, start: usize) -> (r: bool)
    requires
        start + p@.len() <= c@.len(),
    ensures
        r == occurs_at(c@, p@, start as int),
{
    let n = c.len();
    let mut k: usize = 0;
    while k < p.len()
        invariant
            k <= p@.len(),
            n == c@.len(),
            start + p@.len() <= c@.len(),
            forall|j: int| 0 <= j < k ==> c@[start + j] == p@[j],
        decreases p@.len() - k,
    {
        if c[start + k] != p[k] {
            assert(c@.subrange(start as int, start + p@.len())[k as int] != p@[k as int]);
            return false;
        }
        k = k + 1;
    }
    assert(c@.subrange(start as int, start + p@.len()) =~= p@);
    true
}

/// The last offset at which `p` stands wholly before `end`.
pub fn rfind_before(c: &Vec<u8>, p: &Vec<u8>, end: usize) -> (r: Option<usize>)
    requires
        end <= c@.len(),
    ensures
        r matches Some(i) ==> last_before(c@, p@, end as int) == Some(i as int),
        r is None ==> last_before(c@, p@, end as int) is None,
{
    if end < p.len() {
        return None;
    }
    let mut start: usize = end - p.len();
    loop
        invariant
            start + p@.len() <= end <= c@.len(),
            last_before(c@, p@, end as int) == last_before(c@, p@, start + p@.len()),
        decreases start,
    {
        if matches_at(c, p, start) {
            return Some(start);
        }
        if start == 0 {
            assert(last_before(c@, p@, p@.len() - 1) is None);
            return None;
        }
        start = start - 1;
    }
}

/// `p` stands somewhere in `c`.
pub fn contains_bytes(c: &Vec<u8>, p: &Vec<u8>) -> (r: bool)
    ensures
        r == contains(c@, p@),
{
    rfind_before(c, p, c.len()).is_some()
}

/// What to append to `contents` so that it holds `header`: nothing when it
/// is already there, else the header and a blank line.
pub fn header_addition(contents: &Vec<u8>, header: &Vec<u8>) -> (r: Vec<u8>)
    ensures
        r@ == header_addition_text(contents@, header@),
{
    if contains_bytes(contents, header) {
        Vec::new()
    } else {
        let mut out = header.clone();
        out.push(NEWLINE);
        out.push(NEWLINE);
        assert(out@ =~= header@ + seq![NEWLINE, NEWLINE]);
        out
    }
}

/// The text that starts a task at `hour:minute` after `contents`: enough
/// newlines for one blank line, then `HH:MM - __:__` and a newline.
pub fn start_task(contents: &Vec<u8>, hour: u32, minute: u32) -> (r: Vec<u8>)
    requires
        hour < 24,
        minute < 60,
    ensures
        r@ == task_start_text(contents@, hour as int, minute as int),
{
    let n = contents.len();
    let mut out: Vec<u8> = Vec::new();
    if !(n >= 2 && contents[n - 1] == NEWLINE && contents[n - 2] == NEWLINE) {
        if !(n >= 1 && contents[n - 1] == NEWLINE) {
            out.push(NEWLINE);
        }
        out.push(NEWLINE);
    }
    assert(out@ =~= separator(contents@));
    let time = clock_time_bytes(hour, minute);
    let mut i: usize = 0;
    while i < time.len()
        invariant
            i <= time@.len(),
            out@ == separator(contents@) + time@.subrange(0, i as int),
        decreases time@.len() - i,
    {
        out.push(time[i]);
        i = i + 1;
        assert(out@ =~= separator(contents@) + time@.subrange(0, i as int));
    }
    out.push(SPACE);
    out.push(DASH);
    out.push(SPACE);
    out.push(UNDERSCORE);
    out.push(UNDERSCORE);
    out.push(COLON);
    out.push(UNDERSCORE);
    out.push(UNDERSCORE);
    out.push(NEWLINE);
    assert(time@.subrange(0, time@.len() as int) =~= time@);
    assert(out@ =~= task_start_text(contents@, hour as int, minute as int));
    out
}

/// What `last_before` returns: an occurrence ending by `end`, with none after
/// it; or nothing, when no occurrence ends by `end`.
pub proof fn lemma_last_before(c: Seq<u8>, p: Seq<u8>, end: int)
    ensures
        last_before(c, p, end) matches Some(i) ==> {
            &&& occurs_at(c, p, i)
            &&& i + p.len() <= end
            &&& forall|j: int| i < j && j + p.len() <= end ==> !occurs_at(c, p, j)
        },
        last_before(c, p, end) is None ==> forall|j: int|
            j + p.len() <= end ==> !occurs_at(c, p, j),
    decreases end + 1,
{
    if end >= p.len() && !occurs_at(c, p, end - p.len()) {
        lemma_last_before(c, p, end - 1);
    }
}

/// Looking at the window `c[..end]` goes by the latest placeholder in it.
proof fn lemma_unfinished_step(c: Seq<u8>, header_offset: int, end: int)
    ensures
        last_before(c, placeholder(), end) is None ==> unfinished_in(c, header_offset, end) is None,
        last_before(c, placeholder(), end) matches Some(i) ==> unfinished_in(c, header_offset, end)
            == (if i <= header_offset {
            None
        } else if starts_task_line(c, i) {
            Some(i)
        } else {
            unfinished_in(c, header_offset, i)
        }),
    decreases end + 1,
{
    if end >= 5 && !occurs_at(c, placeholder(), end - 5) {
        lemma_unfinished_step(c, header_offset, end - 1);
    }
}

/// Offset of the placeholder of today's unfinished task: the latest `__:__`
/// after the last copy of `header` that starts a task line, searched as
/// `unfinished_task` describes.
pub fn unfinished_task_offset(contents: &Vec<u8>, header: &Vec<u8>) -> (r: Option<usize>)
    requires
        contains(contents@, header@),
    ensures
        r matches Some(i) ==> unfinished_task(contents@, header@) == Some(i as int),
        r is None ==> unfinished_task(contents@, header@) is None,
{
    let header_at = match rfind_before(contents, header, contents.len()) {
        Some(h) => h,
        None => return None,
    };
    let mark: Vec<u8> = vec![UNDERSCORE, UNDERSCORE, COLON, UNDERSCORE, UNDERSCORE];
    assert(mark@ =~= placeholder());
    let mut end: usize = contents.len();
    loop
        invariant
            end <= contents@.len(),
            header_at == header_offset(contents@, header@),
            mark@ == placeholder(),
            unfinished_in(contents@, header_at as int, end as int) == unfinished_task(
                contents@,
                header@,
            ),
        decreases end,
    {
        proof {
            lemma_unfinished_step(contents@, header_at as int, end as int);
            lemma_last_before(contents@, placeholder(), end as int);
        }
        match rfind_before(contents, &mark, end) {
            None => {
                return None;
            },
            Some(i) => {
                if i <= header_at {
                    return None;
                }
                if i > 8 && contents[i - 9] == NEWLINE {
                    return Some(i);
                }
                end = i;
            },
        }
    }
}

/// The contents after ending today's unfinished task at `hour:minute`: the
/// placeholder that `unfinished_task_offset` finds is overwritten with
/// `HH:MM`; without one the contents are unchanged.
pub fn end_task(contents: &Vec<u8>, header: &Vec<u8>, hour: u32, minute: u32) -> (r: Vec<u8>)
    requires
        contains(contents@, header@),
        hour < 24,
        minute < 60,
    ensures
        r@ == ended(contents@, header@, hour as int, minute as int),
{
    match unfinished_task_offset(contents, header) {
        None => contents.clone(),
        Some(at) => {
            proof {
                lemma_last_before(contents@, placeholder(), contents@.len() as int);
                lemma_unfinished_found(contents@, header_offset(contents@, header@), contents@.len() as int);
            }
            let time = clock_time_bytes(hour, minute);
            let mut out = contents.clone();
            let n = contents.len();
            let mut k: usize = 0;
            while k < 5
                invariant
                    k <= 5,
                    n == contents@.len(),
                    at + 5 <= contents@.len(),
                    time@.len() == 5,
                    out@ == contents@.subrange(0, at as int) + time@.subrange(0, k as int)
                        + contents@.subrange(at + k, contents@.len() as int),
                decreases 5 - k,
            {
                out[at + k] = time[k];
                k = k + 1;
                assert(out@ =~= contents@.subrange(0, at as int) + time@.subrange(0, k as int)
                    + contents@.subrange(at + k, contents@.len() as int));
            }
            assert(time@.subrange(0, 5) =~= time@);
            out
        },
    }
}

/// A placeholder that the search takes stands in the contents, after the
/// header's offset, and starts a task line.
pub proof fn lemma_unfinished_found(c: Seq<u8>, header_offset: int, end: int)
    requires
        end <= c.len(),
    ensures
        unfinished_in(c, header_offset, end) matches Some(i) ==> {
            &&& occurs_at(c, placeholder(), i)
            &&& i + 5 <= end
            &&& i > header_offset
            &&& starts_task_line(c, i)
        },
    decreases end + 1,
{
    if end >= 5 {
        if occurs_at(c, placeholder(), end - 5) {
            lemma_unfinished_found(c, header_offset, end - 5);
        } else {
            lemma_unfinished_found(c, header_offset, end - 1);
        }
    }
}

/// A finished task line, `HH:MM - HH:MM` and a newline.
pub open spec fn finished_line(start_hour: int, start_minute: int, end_hour: int, end_minute: int) -> Seq<u8> {
    clock_time(start_hour, start_minute) + seq![SPACE, DASH, SPACE] + clock_time(end_hour, end_minute)
        + seq![NEWLINE]
}

/// Adding today's header twice adds it once: after the first addition the
/// second one is empty.
pub proof fn lemma_header_added_once(c: Seq<u8>, header: Seq<u8>)
    ensures
        header_addition_text(c + header_addition_text(c, header), header) == Seq::<u8>::empty(),
{
    let c1 = c + header_addition_text(c, header);
    if !contains(c, header) {
        assert(c1.subrange(c.len() as int, (c.len() + header.len()) as int) =~= header);
        assert(occurs_at(c1, header, c.len() as int));
        lemma_last_before(c1, header, c1.len() as int);
    } else {
        assert(c1 =~= c);
    }
}

/// The text that starts a task holds no capital letter.
proof fn lemma_start_text_has_no_capital(c: Seq<u8>, hour: int, minute: int)
    requires
        0 <= hour < 24,
        0 <= minute < 60,
    ensures
        forall|k: int|
            0 <= k < task_start_text(c, hour, minute).len() ==> !(65
                <= #[trigger] task_start_text(c, hour, minute)[k] <= 90),
{
    lemma_clock_time_bytes(hour, minute);
    let sep = separator(c);
    let t = task_start_text(c, hour, minute);
    assert forall|k: int| 0 <= k < t.len() implies !(65 <= #[trigger] t[k] <= 90) by {
        if k < sep.len() {
            assert(t[k] == sep[k]);
        } else if k < sep.len() + 5 {
            assert(t[k] == clock_time(hour, minute)[k - sep.len()]);
        }
    }
}

/// Starting a task and then ending it leaves the contents as they were,
/// followed by the separator and one finished task line `HH:MM - HH:MM`.
pub proof fn lemma_start_then_end(
    c: Seq<u8>,
    m: Moment,
    start_hour: int,
    start_minute: int,
    end_hour: int,
    end_minute: int,
)
    requires
        m.wf(),
        contains(c, header_text(m)),
        0 <= start_hour < 24,
        0 <= start_minute < 60,
        0 <= end_hour < 24,
        0 <= end_minute < 60,
    ensures
        contains(c + task_start_text(c, start_hour, start_minute), header_text(m)),
        ended(c + task_start_text(c, start_hour, start_minute), header_text(m), end_hour, end_minute)
            == c + separator(c) + finished_line(start_hour, start_minute, end_hour, end_minute),
{
    let hd = header_text(m);
    let t = task_start_text(c, start_hour, start_minute);
    let c1 = c + t;
    let sep = separator(c);
    let p: int = (c.len() + sep.len() + 8) as int;
    lemma_clock_time_bytes(start_hour, start_minute);
    lemma_clock_time_bytes(end_hour, end_minute);
    lemma_header_opens_with_capital(m);
    lemma_start_text_has_no_capital(c, start_hour, start_minute);

    lemma_last_before(c, hd, c.len() as int);
    let j: int = header_offset(c, hd);
    assert(c1.subrange(j, j + hd.len()) =~= c.subrange(j, j + hd.len()));
    assert(occurs_at(c1, hd, j));
    lemma_last_before(c1, hd, c1.len() as int);

    let h: int = header_offset(c1, hd);
    if h >= c.len() {
        assert(c1.subrange(h, h + hd.len() as int)[0] == c1[h]);
        assert(c1[h] == t[h - c.len()]);
    }
    assert(h < c.len());

    assert(c1.len() == p + 6);
    assert(c1[p + 5] == NEWLINE);
    assert(c1.subrange(p + 1, p + 6)[4] == c1[p + 5]);
    assert(!occurs_at(c1, placeholder(), p + 1));
    assert(c1.subrange(p, p + 5) =~= placeholder());
    assert(c1[p - 9] == NEWLINE);
    assert(starts_task_line(c1, p));
    assert(unfinished_in(c1, h, p + 5) == Some(p));
    assert(unfinished_in(c1, h, p + 6) == Some(p));
    assert(overwrite(c1, p, clock_time(end_hour, end_minute)) =~= c + sep + finished_line(
        start_hour,
        start_minute,
        end_hour,
        end_minute,
    ));
}

/// Ending a task when no placeholder after today's header starts a task
/// line leaves the contents unchanged.
pub proof fn lemma_end_without_unfinished(c: Seq<u8>, header: Seq<u8>, hour: int, minute: int)
    requires
        contains(c, header),
        forall|i: int|
            occurs_at(c, placeholder(), i) && i > header_offset(c, header) ==> !starts_task_line(c, i),
    ensures
        ended(c, header, hour, minute) == c,
{
    lemma_unfinished_found(c, header_offset(c, header), c.len() as int);
}

/// Only a placeholder that follows today's header and starts a task line
/// is ever overwritten; every byte outside it stays as it was.
pub proof fn lemma_only_task_lines_patched(c: Seq<u8>, header: Seq<u8>, hour: int, minute: int)
    requires
        contains(c, header),
        0 <= hour < 24,
        0 <= minute < 60,
    ensures
        unfinished_task(c, header) matches Some(i) ==> {
            &&& occurs_at(c, placeholder(), i)
            &&& i > header_offset(c, header)
            &&& starts_task_line(c, i)
        },
        ended(c, header, hour, minute).len() == c.len(),
        forall|k: int|
            0 <= k < c.len() && !(unfinished_task(c, header) matches Some(i) && i <= k < i + 5)
                ==> #[trigger] ended(c, header, hour, minute)[k] == c[k],
{
    lemma_unfinished_found(c, header_offset(c, header), c.len() as int);
    lemma_clock_time_bytes(hour, minute);
}

} // verus!
