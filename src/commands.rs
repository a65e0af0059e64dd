use vstd::prelude::*;
use vstd::utf8::{decode_utf8, encode_utf8, valid_utf8};
use crate::args::{DecodeArgs, EncodeArgs, RemoveArgs};
use crate::chunk::{copy_range, Chunk, ChunkView};
use crate::chunk_type::{parse_type_name, ChunkType};
use crate::error::PngError;
use crate::png::{
    has_no_type, is_first_of_type, lemma_first_of_type_unique, parse_png, png_bytes, png_text,
    Png,
};

verus! {

/// The position of the first chunk whose type renders as `t`, where there is one.
pub open spec fn first_of_type(cs: Seq<ChunkView>, t: Seq<char>) -> int {
    choose|i: int| is_first_of_type(cs, t, i)
}

/// What encoding gives: the file with one more chunk, of the named type and
/// holding the message, at the end.
pub open spec fn encode_result(file: Seq<u8>, name: Seq<char>, message: Seq<u8>) -> Result<
    Seq<u8>,
    PngError,
> {
    match parse_type_name(name) {
        Err(e) => Err(e),
        Ok(t) => if message.len() > u32::MAX {
            Err(PngError::InvalidFormat)
        } else {
            match parse_png(file) {
                Err(e) => Err(e),
                Ok(cs) => Ok(png_bytes(cs.push(ChunkView { chunk_type: t, data: message }))),
            }
        },
    }
}

/// What decoding gives: the payload, as text, of the first chunk of the type.
pub open spec fn decode_result(file: Seq<u8>, name: Seq<char>) -> Result<
    Seq<char>,
    PngError,
> {
    match parse_png(file) {
        Err(e) => Err(e),
        Ok(cs) => if has_no_type(cs, name) {
            Err(PngError::ChunkNotFound)
        } else {
            let data = cs[first_of_type(cs, name)].data;
            if valid_utf8(data) {
                Ok(decode_utf8(data))
            } else {
                Err(PngError::InvalidUtf8)
            }
        },
    }
}

/// What removing gives: the file without the first chunk of the type.
pub open spec fn remove_result(file: Seq<u8>, name: Seq<char>) -> Result<
    Seq<u8>,
    PngError,
> {
    match parse_png(file) {
        Err(e) => Err(e),
        Ok(cs) => if has_no_type(cs, name) {
            Err(PngError::ChunkNotFound)
        } else {
            Ok(png_bytes(cs.remove(first_of_type(cs, name))))
        },
    }
}

/// What printing gives: the summary of every chunk of the file.
pub open spec fn print_result(file: Seq<u8>) -> Result<Seq<char>, PngError> {
    match parse_png(file) {
        Err(e) => Err(e),
        Ok(cs) => Ok(png_text(cs)),
    }
}

/// Adds the message, as a chunk of the named type, at the end of the file's
/// bytes, and gives back the new file's bytes.
pub fn encode(args: &EncodeArgs, file: &[u8]) -> (r: Result<Vec<u8>, PngError>)
    ensures
        r matches Ok(v) ==> encode_result(file@, args.chunk_type@, encode_utf8(args.message@))
            == Ok::<Seq<u8>, PngError>(v@),
        r matches Err(e) ==> encode_result(file@, args.chunk_type@, encode_utf8(args.message@))
            == Err::<Seq<u8>, PngError>(e),
{
    let chunk_type = match ChunkType::from_str(args.chunk_type.as_str()) {
        Ok(t) => t,
        Err(e) => {
            return Err(e);
        },
    };
    let message = args.message.as_str().as_bytes();
    if message.len() > 0xFFFF_FFFFusize {
        return Err(PngError::InvalidFormat);
    }
    let data = copy_range(message, 0, message.len());
    assert(data@ =~= message@);
    let chunk = Chunk::new(chunk_type, data);
    let mut png = match Png::try_from(file) {
        Ok(p) => p,
        Err(e) => {
            return Err(e);
        },
    };
    png.append_chunk(chunk);
    Ok(png.as_bytes())
}

/// The message held by the first chunk of the named type.
pub fn decode(args: &DecodeArgs, file: &[u8]) -> (r: Result<String, PngError>)
    ensures
        r matches Ok(s) ==> decode_result(file@, args.chunk_type@) == Ok::<Seq<char>, PngError>(
            s@,
        ),
        r matches Err(e) ==> decode_result(file@, args.chunk_type@) == Err::<Seq<char>, PngError>(
            e,
        ),
{
    let png = match Png::try_from(file) {
        Ok(p) => p,
        Err(e) => {
            return Err(e);
        },
    };
    match png.chunk_by_type(args.chunk_type.as_str()) {
        Some(chunk) => {
            proof {
                let cs = png@;
                let t = args.chunk_type@;
                let i = choose|i: int| is_first_of_type(cs, t, i) && chunk@ == cs[i];
                lemma_first_of_type_unique(cs, t, i, first_of_type(cs, t));
                assert(!has_no_type(cs, t));
            }
            chunk.data_as_string()
        },
        None => Err(PngError::ChunkNotFound),
    }
}

/// The file's bytes without the first chunk of the named type.
pub fn remove(args: &RemoveArgs, file: &[u8]) -> (r: Result<Vec<u8>, PngError>)
    ensures
        r matches Ok(v) ==> remove_result(file@, args.chunk_type@) == Ok::<Seq<u8>, PngError>(v@),
        r matches Err(e) ==> remove_result(file@, args.chunk_type@) == Err::<Seq<u8>, PngError>(
            e,
        ),
{
    let mut png = match Png::try_from(file) {
        Ok(p) => p,
        Err(e) => {
            return Err(e);
        },
    };
    let ghost cs = png@;
    match png.remove_chunk(args.chunk_type.as_str()) {
        Ok(_removed) => {
            proof {
                let t = args.chunk_type@;
                let i = choose|i: int|
                    is_first_of_type(cs, t, i) && _removed@ == cs[i] && png@ == cs.remove(i);
                lemma_first_of_type_unique(cs, t, i, first_of_type(cs, t));
                assert(!has_no_type(cs, t));
            }
            Ok(png.as_bytes())
        },
        Err(e) => Err(e),
    }
}

/// The summary of every chunk of the file.
pub fn print_chunks(file: &[u8]) -> (r: Result<String, PngError>)
    ensures
        r matches Ok(s) ==> print_result(file@) == Ok::<Seq<char>, PngError>(s@),
        r matches Err(e) ==> print_result(file@) == Err::<Seq<char>, PngError>(e),
{
    let png = match Png::try_from(file) {
        Ok(p) => p,
        Err(e) => {
            return Err(e);
        },
    };
    Ok(png.to_string())
}

} // verus!
