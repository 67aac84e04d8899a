use vstd::prelude::*;
use crate::error::FrameErrorKind;
use crate::text::{
    absent_between, chars_of, lemma_occurs_double, lemma_occurs_single, lemma_scan_cut,
    lemma_scan_last, occurs_at, replace_char, replace_chars, split, split_chars, split_scan,
    string_from_chars, views,
};

verus! {

/// Capture date, time, hour and channel id of one frame, read from its file name.
#[derive(Clone, Debug)]
pub struct FrameMetadata {
    pub date: String,
    pub time: String,
    pub hour: String,
    pub channel: String,
}

pub struct MetadataView {
    pub date: Seq<char>,
    pub time: Seq<char>,
    pub hour: Seq<char>,
    pub channel: Seq<char>,
}

impl View for FrameMetadata {
    type V = MetadataView;

    open spec fn view(&self) -> MetadataView {
        MetadataView { date: self.date@, time: self.time@, hour: self.hour@, channel: self.channel@ }
    }
}

/// The channels a capture can come from.
pub open spec fn known_channel(c: Seq<char>) -> bool {
    ||| c == seq!['9', '4']
    ||| c == seq!['3', '3', '5']
    ||| c == seq!['2', '1', '1']
    ||| c == seq!['1', '9', '3']
    ||| c == seq!['1', '7', '1']
    ||| c == seq!['3', '0', '4']
}

/// What a file name `<date>__<time>__<a>_<b>_<c>_<channel>.<ext>` says, if it says it.
pub open spec fn meta_spec(name: Seq<char>) -> Option<MetadataView> {
    let fields = split(name, seq!['_', '_']);
    if fields.len() < 3 {
        None
    } else {
        let descriptor = split(fields[2], seq!['_']);
        if descriptor.len() < 4 {
            None
        } else {
            let channel = split(descriptor[3], seq!['.'])[0];
            if !known_channel(channel) {
                None
            } else {
                Some(
                    MetadataView {
                        date: replace_char(fields[0], '_', '/'),
                        time: replace_char(fields[1], '_', ':'),
                        hour: split(fields[1], seq!['_'])[0],
                        channel,
                    },
                )
            }
        }
    }
}

/// Whether the two hold the same characters.
pub fn same_chars(a: &Vec<char>, b: &Vec<char>) -> (r: bool)
    ensures
        r == (a@ == b@),
{
    if a.len() != b.len() {
        return false;
    }
    for i in 0..a.len()
        invariant
            a@.len() == b@.len(),
            forall|j: int| 0 <= j < i ==> a@[j] == b@[j],
    {
        if a[i] != b[i] {
            return false;
        }
    }
    assert(a@ =~= b@);
    true
}

/// Whether `c` names one of the known channels.
pub fn is_known_channel(c: &Vec<char>) -> (r: bool)
    ensures
        r == known_channel(c@),
{
    let names: Vec<Vec<char>> = vec![
        vec!['9', '4'],
        vec!['3', '3', '5'],
        vec!['2', '1', '1'],
        vec!['1', '9', '3'],
        vec!['1', '7', '1'],
        vec!['3', '0', '4'],
    ];
    same_chars(c, &names[0]) || same_chars(c, &names[1]) || same_chars(c, &names[2])
        || same_chars(c, &names[3]) || same_chars(c, &names[4]) || same_chars(c, &names[5])
}

/// No two underscores stand next to each other in `s`.
pub open spec fn no_double_underscore(s: Seq<char>) -> bool {
    forall|k: int| 0 <= k < s.len() - 1 ==> !(#[trigger] s[k] == '_' && s[k + 1] == '_')
}

/// `c` does not occur in `s`.
pub open spec fn lacks(s: Seq<char>, c: char) -> bool {
    forall|k: int| 0 <= k < s.len() ==> #[trigger] s[k] != c
}

/// The file name `<date>__<hour><rest>__<a>_<b>_<c>_<channel>.<ext>`.
pub open spec fn compose_name(
    date: Seq<char>,
    hour: Seq<char>,
    rest: Seq<char>,
    a: Seq<char>,
    b: Seq<char>,
    c: Seq<char>,
    channel: Seq<char>,
    ext: Seq<char>,
) -> Seq<char> {
    date + seq!['_', '_'] + (hour + rest) + seq!['_', '_'] + descriptor(a, b, c, channel, ext)
}

pub open spec fn descriptor(
    a: Seq<char>,
    b: Seq<char>,
    c: Seq<char>,
    channel: Seq<char>,
    ext: Seq<char>,
) -> Seq<char> {
    a + seq!['_'] + b + seq!['_'] + c + seq!['_'] + (channel + seq!['.'] + ext)
}

proof fn lemma_known_channel_chars(c: Seq<char>)
    requires
        known_channel(c),
    ensures
        lacks(c, '_'),
        lacks(c, '.'),
        c.len() > 0,
{
}

/// A piece free of `"__"` that does not end in `'_'`, followed by `"__"`, is cut off whole.
proof fn lemma_cut_double(s: Seq<char>, from: int, piece: Seq<char>)
    requires
        0 <= from,
        from + piece.len() + 2 <= s.len(),
        s.subrange(from, from + piece.len()) == piece,
        s[from + piece.len()] == '_',
        s[from + piece.len() + 1] == '_',
        no_double_underscore(piece),
        piece.len() > 0 ==> piece.last() != '_',
    ensures
        split_scan(s, seq!['_', '_'], from, from) == seq![piece] + split_scan(
            s,
            seq!['_', '_'],
            from + piece.len() + 2,
            from + piece.len() + 2,
        ),
{
    let dd = seq!['_', '_'];
    let end = from + piece.len();
    assert forall|k: int| from <= k < end implies !#[trigger] occurs_at(s, dd, k) by {
        lemma_occurs_double(s, '_', k);
        assert(s[k] == piece[k - from]);
        if k + 1 < end {
            assert(s[k + 1] == piece[k + 1 - from]);
        }
    }
    lemma_occurs_double(s, '_', end);
    lemma_scan_cut(s, dd, from, from, end);
}

proof fn lemma_descriptor_parts(
    a: Seq<char>,
    b: Seq<char>,
    c: Seq<char>,
    channel: Seq<char>,
    ext: Seq<char>,
)
    requires
        a.len() > 0 && lacks(a, '_'),
        b.len() > 0 && lacks(b, '_'),
        c.len() > 0 && lacks(c, '_'),
        lacks(channel, '_'),
        lacks(ext, '_'),
    ensures
        no_double_underscore(descriptor(a, b, c, channel, ext)),
        split(descriptor(a, b, c, channel, ext), seq!['_']).len() >= 4,
        split(descriptor(a, b, c, channel, ext), seq!['_'])[3] == channel + seq!['.'] + ext,
{
    let us = seq!['_'];
    let desc = descriptor(a, b, c, channel, ext);
    let tail = channel + seq!['.'] + ext;
    let pa = a.len() as int;
    let pb = pa + 1 + b.len();
    let pc = pb + 1 + c.len();
    assert forall|k: int| 0 <= k < desc.len() && #[trigger] desc[k] == '_' implies k == pa || k == pb
        || k == pc by {
        if k < pa {
            assert(desc[k] == a[k]);
        } else if pa < k < pb {
            assert(desc[k] == b[k - pa - 1]);
        } else if pb < k < pc {
            assert(desc[k] == c[k - pb - 1]);
        } else if pc < k < pc + 1 + channel.len() {
            assert(desc[k] == channel[k - pc - 1]);
        } else if pc + 1 + channel.len() < k {
            assert(desc[k] == ext[k - pc - 2 - channel.len()]);
        }
    }
    assert forall|k: int| 0 <= k < pa implies !#[trigger] occurs_at(desc, us, k) by {
        lemma_occurs_single(desc, '_', k);
    }
    lemma_occurs_single(desc, '_', pa);
    lemma_scan_cut(desc, us, 0, 0, pa);
    assert forall|k: int| pa + 1 <= k < pb implies !#[trigger] occurs_at(desc, us, k) by {
        lemma_occurs_single(desc, '_', k);
    }
    lemma_occurs_single(desc, '_', pb);
    lemma_scan_cut(desc, us, pa + 1, pa + 1, pb);
    assert forall|k: int| pb + 1 <= k < pc implies !#[trigger] occurs_at(desc, us, k) by {
        lemma_occurs_single(desc, '_', k);
    }
    lemma_occurs_single(desc, '_', pc);
    lemma_scan_cut(desc, us, pb + 1, pb + 1, pc);
    assert forall|k: int| pc + 1 <= k < desc.len() implies !#[trigger] occurs_at(desc, us, k) by {
        lemma_occurs_single(desc, '_', k);
    }
    lemma_scan_last(desc, us, pc + 1, pc + 1);
    assert(desc.subrange(pc + 1, desc.len() as int) =~= tail);
}

proof fn lemma_name_fields(date: Seq<char>, time: Seq<char>, desc: Seq<char>)
    requires
        no_double_underscore(date),
        date.len() > 0 ==> date.last() != '_',
        no_double_underscore(time),
        time.len() > 0 ==> time.last() != '_',
        no_double_underscore(desc),
    ensures
        split(date + seq!['_', '_'] + time + seq!['_', '_'] + desc, seq!['_', '_']) == seq![
            date,
            time,
            desc,
        ],
{
    let dd = seq!['_', '_'];
    let name = date + dd + time + dd + desc;
    let date_end = date.len() as int;
    let time_end = date_end + 2 + time.len();
    assert(name.subrange(0, date_end) =~= date);
    lemma_cut_double(name, 0, date);
    assert(name.subrange(date_end + 2, time_end) =~= time);
    lemma_cut_double(name, date_end + 2, time);
    assert(name.subrange(time_end + 2, name.len() as int) =~= desc);
    assert forall|k: int| time_end + 2 <= k < name.len() implies !#[trigger] occurs_at(name, dd, k) by {
        lemma_occurs_double(name, '_', k);
        if k + 1 < name.len() {
            assert(name[k] == desc[k - time_end - 2]);
            assert(name[k + 1] == desc[k + 1 - time_end - 2]);
        }
    }
    lemma_scan_last(name, dd, time_end + 2, time_end + 2);
    assert(split(name, dd) =~= seq![date, time, desc]);
}

proof fn lemma_channel_before_dot(channel: Seq<char>, ext: Seq<char>)
    requires
        lacks(channel, '.'),
    ensures
        split(channel + seq!['.'] + ext, seq!['.'])[0] == channel,
{
    let tail = channel + seq!['.'] + ext;
    let cl = channel.len() as int;
    assert forall|k: int| 0 <= k < cl implies !#[trigger] occurs_at(tail, seq!['.'], k) by {
        lemma_occurs_single(tail, '.', k);
        assert(tail[k] == channel[k]);
    }
    lemma_occurs_single(tail, '.', cl);
    lemma_scan_cut(tail, seq!['.'], 0, 0, cl);
    assert(tail.subrange(0, cl) =~= channel);
}

proof fn lemma_hour_first(hour: Seq<char>, rest: Seq<char>)
    requires
        lacks(hour, '_'),
        rest.len() > 0 ==> rest[0] == '_',
    ensures
        split(hour + rest, seq!['_'])[0] == hour,
{
    let us = seq!['_'];
    let time = hour + rest;
    let hl = hour.len() as int;
    assert forall|k: int| 0 <= k < hl implies !#[trigger] occurs_at(time, us, k) by {
        lemma_occurs_single(time, '_', k);
        assert(time[k] == hour[k]);
    }
    assert(time.subrange(0, hl) =~= hour);
    if rest.len() > 0 {
        lemma_occurs_single(time, '_', hl);
        lemma_scan_cut(time, us, 0, 0, hl);
    } else {
        assert(time =~= hour);
        lemma_scan_last(time, us, 0, 0);
    }
}

/// Reading a name written in the file-name grammar gives back what it was written from:
/// the date with `/` for `_`, the time with `:` for `_`, the hour that opens the time, and
/// the channel id.
pub proof fn lemma_parse_meta_round_trip(
    date: Seq<char>,
    hour: Seq<char>,
    rest: Seq<char>,
    a: Seq<char>,
    b: Seq<char>,
    c: Seq<char>,
    channel: Seq<char>,
    ext: Seq<char>,
)
    requires
        no_double_underscore(date),
        date.len() > 0 ==> date.last() != '_',
        lacks(hour, '_'),
        rest.len() > 0 ==> rest[0] == '_',
        no_double_underscore(hour + rest),
        (hour + rest).len() > 0 ==> (hour + rest).last() != '_',
        a.len() > 0 && lacks(a, '_'),
        b.len() > 0 && lacks(b, '_'),
        c.len() > 0 && lacks(c, '_'),
        known_channel(channel),
        lacks(ext, '_'),
    ensures
        meta_spec(compose_name(date, hour, rest, a, b, c, channel, ext)) == Some(
            MetadataView {
                date: replace_char(date, '_', '/'),
                time: replace_char(hour + rest, '_', ':'),
                hour,
                channel,
            },
        ),
{
    lemma_known_channel_chars(channel);
    lemma_descriptor_parts(a, b, c, channel, ext);
    lemma_name_fields(date, hour + rest, descriptor(a, b, c, channel, ext));
    lemma_channel_before_dot(channel, ext);
    lemma_hour_first(hour, rest);
}

/// Reads capture date, time, hour and channel id from a file name.
pub fn parse_meta(name: &str) -> (r: Result<FrameMetadata, FrameErrorKind>)
    ensures
        r is Ok <==> meta_spec(name@) is Some,
        r is Ok ==> r->Ok_0@ == meta_spec(name@)->Some_0,
        r is Err ==> r->Err_0 == FrameErrorKind::MalformedMetadata,
{
    let chars = chars_of(name);
    let double = vec!['_', '_'];
    let underscore = vec!['_'];
    let dot = vec!['.'];
    assert(double@ =~= seq!['_', '_']);
    assert(underscore@ =~= seq!['_']);
    assert(dot@ =~= seq!['.']);
    let fields = split_chars(&chars, &double);
    assert(views(fields@).len() == fields@.len());
    if fields.len() < 3 {
        return Err(FrameErrorKind::MalformedMetadata);
    }
    assert(views(fields@)[2] == fields@[2]@);
    let descriptor = split_chars(&fields[2], &underscore);
    assert(views(descriptor@).len() == descriptor@.len());
    if descriptor.len() < 4 {
        return Err(FrameErrorKind::MalformedMetadata);
    }
    assert(views(descriptor@)[3] == descriptor@[3]@);
    let channel_parts = split_chars(&descriptor[3], &dot);
    assert(views(channel_parts@)[0] == channel_parts@[0]@);
    let channel = channel_parts[0].clone();
    if !is_known_channel(&channel) {
        return Err(FrameErrorKind::MalformedMetadata);
    }
    assert(views(fields@)[0] == fields@[0]@);
    assert(views(fields@)[1] == fields@[1]@);
    let hour_parts = split_chars(&fields[1], &underscore);
    assert(views(hour_parts@)[0] == hour_parts@[0]@);
    let hour = hour_parts[0].clone();
    let date = replace_chars(&fields[0], '_', '/');
    let time = replace_chars(&fields[1], '_', ':');
    Ok(
        FrameMetadata {
            date: string_from_chars(date),
            time: string_from_chars(time),
            hour: string_from_chars(hour),
            channel: string_from_chars(channel),
        },
    )
}

} // verus!
