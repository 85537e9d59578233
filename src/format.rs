use vstd::prelude::*;

verus! {

/// The encodings a catalog may list for one track.
#[derive(PartialEq, Eq, Structural, Clone, Copy, Debug)]
pub enum AudioFormat {
    OggVorbis96,
    OggVorbis160,
    OggVorbis320,
    Mp3_256,
    Mp3_320,
    Mp3_160,
    Mp3_96,
    Mp3_160Enc,
    Aac24,
    Aac48,
    Aac160,
    Aac320,
    Mp4_128,
    Flac,
    Flac24,
    XheAac12,
    XheAac16,
    XheAac24,
    Other,
}

/// Raw bytes of an opaque content-file key.
pub type FileKey = [u8; 20];

/// One row of a track's format table.
#[derive(Clone, Copy, Debug)]
pub struct FormatEntry {
    pub format: AudioFormat,
    pub file: FileKey,
}

/// The nominal bitrate that a selection achieved.
#[derive(PartialEq, Eq, Structural, Clone, Copy, Debug)]
pub enum Bitrate {
    Kbps320,
    Kbps160,
}

impl Bitrate {
    pub open spec fn spec_kbps(self) -> u32 {
        match self {
            Bitrate::Kbps320 => 320,
            Bitrate::Kbps160 => 160,
        }
    }

    /// Kilobits per second.
    #[verifier::when_used_as_spec(spec_kbps)]
    pub fn kbps(self) -> (r: u32)
        ensures
            r == self.spec_kbps(),
    {
        match self {
            Bitrate::Kbps320 => 320,
            Bitrate::Kbps160 => 160,
        }
    }
}

/// The outcome of a successful format choice.
#[derive(Clone, Copy, Debug)]
pub struct Selection {
    pub file: FileKey,
    pub bitrate: Bitrate,
    /// True when the preferred encoding was missing.
    pub degraded: bool,
}

/// No encoding of the preference ladder is listed; `available` holds the
/// formats that are, in table order.
#[derive(Clone, Debug)]
pub struct NoAcceptableFormat {
    pub available: Vec<AudioFormat>,
}

/// A format table maps each format to one file: no format is listed twice.
pub open spec fn formats_unique(table: Seq<FormatEntry>) -> bool {
    forall|i: int, j: int|
        0 <= i < j < table.len() ==> #[trigger] table[i].format != #[trigger] table[j].format
}

/// Tests that no format is listed twice.
pub fn formats_are_unique(table: &Vec<FormatEntry>) -> (r: bool)
    ensures
        r == formats_unique(table@),
{
    let mut i: usize = 0;
    while i < table.len()
        invariant
            i <= table@.len(),
            forall|a: int, b: int|
                0 <= a < i && a < b < table@.len() ==> #[trigger] table@[a].format
                    != #[trigger] table@[b].format,
        decreases table.len() - i,
    {
        let mut j: usize = i + 1;
        while j < table.len()
            invariant
                i < table@.len(),
                i + 1 <= j <= table@.len(),
                forall|a: int, b: int|
                    0 <= a < i && a < b < table@.len() ==> #[trigger] table@[a].format
                        != #[trigger] table@[b].format,
                forall|b: int| i < b < j ==> table@[i as int].format != #[trigger] table@[b].format,
            decreases table.len() - j,
        {
            if table[i].format == table[j].format {
                return false;
            }
            j += 1;
        }
        i += 1;
    }
    true
}

/// Index of the first row whose format is `f`, if any.
pub open spec fn first_with(table: Seq<FormatEntry>, f: AudioFormat) -> Option<int>
    decreases table.len(),
{
    if table.len() == 0 {
        None
    } else if table[0].format == f {
        Some(0)
    } else {
        match first_with(table.drop_first(), f) {
            Some(i) => Some(i + 1),
            None => None,
        }
    }
}

/// What the preference ladder yields on a format table.
pub open spec fn select_spec(table: Seq<FormatEntry>) -> Result<Selection, Seq<AudioFormat>> {
    match first_with(table, AudioFormat::OggVorbis320) {
        Some(i) => Ok(Selection { file: table[i].file, bitrate: Bitrate::Kbps320, degraded: false }),
        None => match first_with(table, AudioFormat::OggVorbis160) {
            Some(i) => Ok(
                Selection { file: table[i].file, bitrate: Bitrate::Kbps160, degraded: true },
            ),
            None => Err(table.map_values(|e: FormatEntry| e.format)),
        },
    }
}

proof fn lemma_first_with_props(table: Seq<FormatEntry>, f: AudioFormat)
    ensures
        match first_with(table, f) {
            Some(i) => 0 <= i < table.len() && table[i].format == f && forall|j: int|
                0 <= j < i ==> table[j].format != f,
            None => forall|j: int| 0 <= j < table.len() ==> table[j].format != f,
        },
    decreases table.len(),
{
    if table.len() > 0 && table[0].format != f {
        let rest = table.drop_first();
        lemma_first_with_props(rest, f);
        assert forall|j: int| 1 <= j < table.len() implies table[j] == rest[j - 1] by {}
    }
}

/// Scans the table for the first row of format `f`.
fn find_format(table: &Vec<FormatEntry>, f: AudioFormat) -> (r: Option<usize>)
    ensures
        match r {
            Some(i) => i < table@.len() && first_with(table@, f) == Some(i as int),
            None => first_with(table@, f) is None,
        },
{
    let mut i: usize = 0;
    while i < table.len()
        invariant
            i <= table@.len(),
            forall|j: int| 0 <= j < i ==> table@[j].format != f,
        decreases table.len() - i,
    {
        if table[i].format == f {
            proof {
                lemma_first_with_props(table@, f);
            }
            return Some(i);
        }
        i += 1;
    }
    proof {
        lemma_first_with_props(table@, f);
    }
    None
}

/// Picks the content file to fetch: high-bitrate Ogg Vorbis if listed, else
/// medium-bitrate Ogg Vorbis (marked degraded), else an error that lists
/// every format the table holds.
pub fn select_format(table: &Vec<FormatEntry>) -> (r: Result<Selection, NoAcceptableFormat>)
    requires
        formats_unique(table@),
    ensures
        match (r, select_spec(table@)) {
            (Ok(s), Ok(t)) => s == t,
            (Err(e), Err(avail)) => e.available@ == avail,
            _ => false,
        },
{
    match find_format(table, AudioFormat::OggVorbis320) {
        Some(i) => {
            return Ok(Selection { file: table[i].file, bitrate: Bitrate::Kbps320, degraded: false });
        },
        None => {},
    }
    match find_format(table, AudioFormat::OggVorbis160) {
        Some(i) => {
            return Ok(Selection { file: table[i].file, bitrate: Bitrate::Kbps160, degraded: true });
        },
        None => {},
    }
    let mut available: Vec<AudioFormat> = Vec::new();
    let mut k: usize = 0;
    while k < table.len()
        invariant
            k <= table@.len(),
            available@ == table@.take(k as int).map_values(|e: FormatEntry| e.format),
        decreases table.len() - k,
    {
        available.push(table[k].format);
        k += 1;
        assert(table@.take(k as int).drop_last() == table@.take(k - 1));
    }
    assert(table@.take(table@.len() as int) == table@);
    Err(NoAcceptableFormat { available })
}

} // verus!
