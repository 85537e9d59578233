use vstd::prelude::*;

verus! {

/// Length of the leading header that the decoded stream carries before the
/// Ogg data.
pub const HEADER_LEN: usize = 167;

/// Names the output of librespot's AES-128-CTR audio decryption under `key`.
pub uninterp spec fn decrypted(key: Seq<u8>, data: Seq<u8>) -> Seq<u8>;

/// Relies on librespot-audio's `AudioDecrypt`: without a key it passes the
/// bytes through unaltered; with one it applies the key stream to every byte
/// it reads, so the length is kept. It reads from an in-memory slice, whose
/// reads never fail, so a result always comes back.
#[verifier::external_body]
fn decrypt(key: Option<[u8; 16]>, data: &Vec<u8>) -> (r: Option<Vec<u8>>)
    ensures
        r is Some,
        r matches Some(d) ==> d@.len() == data@.len(),
        r matches Some(d) ==> match key {
            None => d@ == data@,
            Some(k) => d@ == decrypted(k@, data@),
        },
{
    let mut out = Vec::new();
    let key = key.map(librespot_core::audio_key::AudioKey);
    std::io::Read::read_to_end(&mut librespot_audio::AudioDecrypt::new(key, &data[..]), &mut out)
        .ok()
        .map(|_| out)
}

/// What a fetched stream decrypts to: `raw` under `key`, or `raw` itself when
/// no key was granted.
pub open spec fn decoded_spec(key: Option<[u8; 16]>, raw: Seq<u8>) -> Seq<u8> {
    match key {
        None => raw,
        Some(k) => decrypted(k@, raw),
    }
}

/// Why the media of one track could not be produced.
#[derive(PartialEq, Eq, Structural, Clone, Copy, Debug)]
pub enum MediaError {
    /// The decoded stream is shorter than its header.
    Truncated,
    /// The conversion process reported failure.
    ConversionFailed,
}

/// The Ogg payload of a decoded stream: everything after the header.
pub fn strip_header(decoded: &Vec<u8>) -> (r: Result<Vec<u8>, MediaError>)
    ensures
        decoded@.len() >= HEADER_LEN ==> (r matches Ok(v) && v@ == decoded@.subrange(
            HEADER_LEN as int,
            decoded@.len() as int,
        )),
        decoded@.len() < HEADER_LEN ==> r == Err::<Vec<u8>, MediaError>(MediaError::Truncated),
{
    if decoded.len() < HEADER_LEN {
        return Err(MediaError::Truncated);
    }
    let mut out: Vec<u8> = Vec::new();
    let mut k: usize = HEADER_LEN;
    while k < decoded.len()
        invariant
            HEADER_LEN <= k <= decoded@.len(),
            out@ == decoded@.subrange(HEADER_LEN as int, k as int),
        decreases decoded.len() - k,
    {
        out.push(decoded[k]);
        k += 1;
        assert(out@ == decoded@.subrange(HEADER_LEN as int, k as int));
    }
    Ok(out)
}

/// Decrypts a fetched stream and strips its header. A missing key is
/// tolerated: the bytes are then taken as they came.
pub fn decode_media(key: Option<[u8; 16]>, raw: &Vec<u8>) -> (r: Result<Vec<u8>, MediaError>)
    ensures
        r matches Ok(v) ==> raw@.len() >= HEADER_LEN && v@ == decoded_spec(key, raw@).subrange(
            HEADER_LEN as int,
            raw@.len() as int,
        ),
        raw@.len() >= HEADER_LEN ==> r is Ok,
        raw@.len() < HEADER_LEN ==> r == Err::<Vec<u8>, MediaError>(MediaError::Truncated),
{
    let d = decrypt(key, raw).unwrap();
    strip_header(&d)
}

pub open spec fn transcode_args_spec(media: Seq<char>, final_path: Seq<char>) -> Seq<Seq<char>> {
    seq![
        "-i"@,
        media,
        "-map_metadata"@,
        "0:s:0"@,
        "-id3v2_version"@,
        "3"@,
        "-codec:a"@,
        "libmp3lame"@,
        "-qscale:a"@,
        "1"@,
        final_path,
    ]
}

/// Arguments for the conversion process: read `media`, keep its metadata
/// stream, write ID3v2.3, encode with LAME at its best quality into
/// `final_path`.
pub fn transcode_args(media: &str, final_path: &str) -> (r: Vec<String>)
    ensures
        r@.map_values(|s: String| s@) == transcode_args_spec(media@, final_path@),
{
    let mut v: Vec<String> = Vec::new();
    v.push(String::from_str("-i"));
    v.push(String::from_str(media));
    v.push(String::from_str("-map_metadata"));
    v.push(String::from_str("0:s:0"));
    v.push(String::from_str("-id3v2_version"));
    v.push(String::from_str("3"));
    v.push(String::from_str("-codec:a"));
    v.push(String::from_str("libmp3lame"));
    v.push(String::from_str("-qscale:a"));
    v.push(String::from_str("1"));
    v.push(String::from_str(final_path));
    assert(v@.map_values(|s: String| s@) == transcode_args_spec(media@, final_path@));
    v
}

/// A failed conversion ends the track's processing: no tags are written to
/// a file that may be missing or corrupt.
pub fn conversion_verdict(exit_success: bool) -> (r: Result<(), MediaError>)
    ensures
        exit_success <==> r is Ok,
        r is Err ==> r == Err::<(), MediaError>(MediaError::ConversionFailed),
{
    if exit_success {
        Ok(())
    } else {
        Err(MediaError::ConversionFailed)
    }
}

} // verus!
