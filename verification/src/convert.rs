//! The files that come of a content blob.

use crate::extract::{
    audio_failure_message, audio_place, failed_place, image_folder, level_extension_of, level_place,
    place_of, raw_place, Layout,
};
use crate::image_file::{encode_level, encodes, pixel_bytes, png_file};
use crate::levels::{failure_message, failure_text, Decoding, ImageFailure, Level};
use crate::text::{decimal, optional_str, optional_text, texts};
use vstd::prelude::*;
use vstd::string::*;

verus! {

/// A file to write: its place below the output directory, and its bytes.
#[derive(Debug, PartialEq, Eq)]
pub struct OutputFile {
    pub place: Vec<String>,
    pub bytes: Vec<u8>,
}

/// The model of a file to write.
#[verifier::ext_equal]
pub struct FileModel {
    pub place: Seq<Seq<char>>,
    pub bytes: Seq<u8>,
}

impl View for OutputFile {
    type V = FileModel;

    open spec fn view(&self) -> FileModel {
        FileModel { place: texts(self.place@), bytes: self.bytes@ }
    }
}

/// What comes of a blob: the files to write, and what the user is told, if anything.
#[derive(Debug, PartialEq, Eq)]
pub struct Conversion {
    pub files: Vec<OutputFile>,
    pub warning: Option<String>,
}

/// The model of what comes of a blob.
#[verifier::ext_equal]
pub struct ConversionModel {
    pub files: Seq<FileModel>,
    pub warning: Option<Seq<char>>,
}

impl View for Conversion {
    type V = ConversionModel;

    open spec fn view(&self) -> ConversionModel {
        ConversionModel {
            files: self.files@.map_values(|file: OutputFile| file@),
            warning: optional_text(self.warning),
        }
    }
}

/// What comes of a blob that is written to one file.
pub open spec fn whole(
    place: Seq<Seq<char>>,
    data: Seq<u8>,
    warning: Option<Seq<char>>,
) -> ConversionModel {
    ConversionModel { files: seq![FileModel { place, bytes: data }], warning }
}

/// One file for the whole blob.
fn write_whole(place: Vec<String>, data: Vec<u8>, warning: Option<String>) -> (conversion:
    Conversion)
    ensures
        conversion@ == whole(texts(place@), data@, optional_text(warning)),
{
    let mut files: Vec<OutputFile> = Vec::new();
    files.push(OutputFile { place, bytes: data });
    let conversion = Conversion { files, warning };
    proof {
        assert(conversion@.files =~= whole(texts(place@), data@, optional_text(warning)).files);
    }
    conversion
}

/// What comes of a blob that is not converted: one file with its data as they are.
pub fn keep_raw(layout: Layout, hash: &str, data: Vec<u8>) -> (conversion: Conversion)
    ensures
        conversion@ == whole(place_of(layout, "unknown"@, hash@, "bin"@, None), data@, None),
{
    write_whole(raw_place(layout, hash), data, None)
}

/// What comes of a sound: the converted sound, or else one file with its data as
/// they are.
pub open spec fn audio_conversion(
    layout: Layout,
    hash: Seq<char>,
    debug_name: Option<Seq<char>>,
    converted: Result<Vec<u8>, String>,
    data: Seq<u8>,
) -> ConversionModel {
    match converted {
        Ok(wav) => whole(place_of(layout, "audio"@, hash, "wav"@, debug_name), wav@, None),
        Err(reason) => whole(
            place_of(layout, "failed"@, hash, "bin"@, debug_name),
            data,
            Some("Failed to convert audio "@ + hash + ": "@ + reason@ + ", saving to failed/"@),
        ),
    }
}

/// What comes of a sound.
pub fn convert_audio(
    layout: Layout,
    hash: &str,
    debug_name: Option<&str>,
    converted: Result<Vec<u8>, String>,
    data: Vec<u8>,
) -> (conversion: Conversion)
    ensures
        conversion@ == audio_conversion(
            layout,
            hash@,
            optional_str(debug_name),
            converted,
            data@,
        ),
{
    match converted {
        Ok(wav) => write_whole(audio_place(layout, hash, debug_name), wav, None),
        Err(reason) => write_whole(
            failed_place(layout, hash, debug_name),
            data,
            Some(audio_failure_message(hash, reason.as_str())),
        ),
    }
}

/// What comes of an image that is not converted: one file with its data as they are.
pub open spec fn image_failure(
    layout: Layout,
    hash: Seq<char>,
    debug_name: Option<Seq<char>>,
    failure: ImageFailure,
    data: Seq<u8>,
) -> ConversionModel {
    whole(
        place_of(layout, "failed"@, hash, "bin"@, debug_name),
        data,
        Some(failure_text(hash, failure)),
    )
}

/// What comes of an image that is not converted.
pub fn give_up_image(
    layout: Layout,
    hash: &str,
    debug_name: Option<&str>,
    failure: &ImageFailure,
    data: Vec<u8>,
) -> (conversion: Conversion)
    ensures
        conversion@ == image_failure(layout, hash@, optional_str(debug_name), *failure, data@),
{
    write_whole(
        failed_place(layout, hash, debug_name),
        data,
        Some(failure_message(hash, failure)),
    )
}

/// An image: its size, and the number of levels that are asked for.
#[derive(Clone, Copy, Debug, PartialEq, Eq, Structural)]
pub struct ImageSize {
    pub width: u32,
    pub height: u32,
    pub levels: u32,
}

/// A planned level after it was decoded, or was not.
pub struct DecodedLevel {
    /// The level.
    pub level: Level,
    /// How the decoding ended.
    pub decoding: Decoding,
    /// The pixels.
    pub rgba: Vec<u8>,
}

/// Whether a level has pixels, room was made for all of them, their number can be
/// counted, and the encoder can take a row of them.
pub open spec fn has_pixels(decoded: DecodedLevel) -> bool {
    &&& encodes(decoded.level.width, decoded.level.height, decoded.rgba@)
    &&& pixel_bytes(decoded.level.width, decoded.level.height) <= usize::MAX
    &&& decoded.level.width as int * 4 < u32::MAX
}

/// The file of a decoded level.
pub open spec fn level_file(
    layout: Layout,
    hash: Seq<char>,
    debug_name: Option<Seq<char>>,
    size: ImageSize,
    decoded: DecodedLevel,
) -> FileModel {
    FileModel {
        place: place_of(
            layout,
            image_folder(size.width, size.height),
            hash,
            level_extension_of(decoded.level.level, size.levels),
            debug_name,
        ),
        bytes: png_file(decoded.level.width, decoded.level.height, decoded.rgba@)->Ok_0,
    }
}

/// The files of the levels that were decoded, in order.
pub open spec fn level_files(
    layout: Layout,
    hash: Seq<char>,
    debug_name: Option<Seq<char>>,
    size: ImageSize,
    decoded: Seq<DecodedLevel>,
) -> Seq<FileModel>
    decreases decoded.len(),
{
    if decoded.len() == 0 {
        Seq::empty()
    } else {
        let before = level_files(layout, hash, debug_name, size, decoded.drop_last());
        if decoded.last().decoding is Done {
            before.push(level_file(layout, hash, debug_name, size, decoded.last()))
        } else {
            before
        }
    }
}

/// Why an image is given up after its levels were decoded, if it is: without its
/// first level nothing of it is written. Any other level may be left out.
pub open spec fn decoding_failure(decoded: Seq<DecodedLevel>) -> Option<ImageFailure> {
    if decoded.len() == 0 {
        Some(ImageFailure::NothingExtracted)
    } else {
        match decoded[0].decoding {
            Decoding::Done => None,
            Decoding::Failed(reason) => Some(
                ImageFailure::Undecodable { level: decoded[0].level.level, reason },
            ),
            Decoding::Panicked => Some(ImageFailure::Panicked { level: decoded[0].level.level }),
        }
    }
}

/// What comes of an image after its levels were decoded.
pub open spec fn image_conversion(
    layout: Layout,
    hash: Seq<char>,
    debug_name: Option<Seq<char>>,
    size: ImageSize,
    decoded: Seq<DecodedLevel>,
    data: Seq<u8>,
) -> ConversionModel {
    match decoding_failure(decoded) {
        Some(failure) => image_failure(layout, hash, debug_name, failure, data),
        None => ConversionModel {
            files: level_files(layout, hash, debug_name, size, decoded),
            warning: None,
        },
    }
}

/// Why an image is given up after its levels were decoded, if it is.
fn find_decoding_failure(decoded: &Vec<DecodedLevel>) -> (failure: Option<ImageFailure>)
    ensures
        failure == decoding_failure(decoded@),
{
    if decoded.len() == 0 {
        return Some(ImageFailure::NothingExtracted);
    }
    let level = decoded[0].level.level;
    match &decoded[0].decoding {
        Decoding::Done => None,
        Decoding::Failed(reason) => Some(
            ImageFailure::Undecodable { level, reason: reason.clone() },
        ),
        Decoding::Panicked => Some(ImageFailure::Panicked { level }),
    }
}

/// What comes of an image after its levels were decoded: one file for each level
/// that was, which the encoder has made of its pixels. An image whose first level was
/// not decoded is written as it is, in one file.
pub fn convert_image(
    layout: Layout,
    hash: &str,
    debug_name: Option<&str>,
    size: ImageSize,
    decoded: &Vec<DecodedLevel>,
    data: Vec<u8>,
) -> (conversion: Conversion)
    requires
        forall|i: int|
            0 <= i < decoded@.len() && (#[trigger] decoded@[i]).decoding is Done ==> has_pixels(
                decoded@[i],
            ),
    ensures
        conversion@ == image_conversion(
            layout,
            hash@,
            optional_str(debug_name),
            size,
            decoded@,
            data@,
        ),
        decoding_failure(decoded@) is None ==> forall|i: int|
            0 <= i < decoded@.len() && (#[trigger] decoded@[i]).decoding is Done ==> png_file(
                decoded@[i].level.width,
                decoded@[i].level.height,
                decoded@[i].rgba@,
            ) is Ok,
{
    if let Some(failure) = find_decoding_failure(decoded) {
        return give_up_image(layout, hash, debug_name, &failure, data);
    }
    let ghost name = optional_str(debug_name);
    let ghost view = |file: OutputFile| file@;
    let mut files: Vec<OutputFile> = Vec::new();
    let mut i: usize = 0;
    proof {
        assert(decoded@.take(0) =~= Seq::empty());
        assert(files@.map_values(view) =~= Seq::empty());
    }
    while i < decoded.len()
        invariant
            i <= decoded@.len(),
            forall|i: int|
                0 <= i < decoded@.len() && (#[trigger] decoded@[i]).decoding is Done ==> has_pixels(
                    decoded@[i],
                ),
            name == optional_str(debug_name),
            view == |file: OutputFile| file@,
            forall|k: int|
                0 <= k < i && (#[trigger] decoded@[k]).decoding is Done ==> png_file(
                    decoded@[k].level.width,
                    decoded@[k].level.height,
                    decoded@[k].rgba@,
                ) is Ok,
            files@.map_values(view) == level_files(
                layout,
                hash@,
                name,
                size,
                decoded@.take(i as int),
            ),
        decreases decoded@.len() - i,
    {
        let item = &decoded[i];
        proof {
            let more = decoded@.take(i + 1);
            assert(more.drop_last() =~= decoded@.take(i as int));
            assert(more.last() == decoded@[i as int]);
        }
        if let Decoding::Done = &item.decoding {
            if let Ok(bytes) = encode_level(&item.level, &item.rgba) {
                let place = level_place(
                    layout,
                    hash,
                    debug_name,
                    size.width,
                    size.height,
                    item.level.level,
                    size.levels,
                );
                let ghost before = files@;
                let file = OutputFile { place, bytes };
                proof {
                    assert(file@ =~= level_file(layout, hash@, name, size, *item));
                }
                files.push(file);
                proof {
                    assert(files@.map_values(view) =~= before.map_values(view).push(file@));
                }
            }
        }
        i = i + 1;
    }
    proof {
        assert(decoded@.take(i as int) =~= decoded@);
    }
    Conversion { files, warning: None }
}

/// How many levels were decoded.
pub open spec fn done_count(decoded: Seq<DecodedLevel>) -> nat
    decreases decoded.len(),
{
    if decoded.len() == 0 {
        0
    } else {
        done_count(decoded.drop_last()) + if decoded.last().decoding is Done {
            1nat
        } else {
            0nat
        }
    }
}

/// An image with a first level comes to one file for each level that was decoded,
/// and each of those levels is in one of them.
pub proof fn law_each_decoded_level_has_a_file(
    layout: Layout,
    hash: Seq<char>,
    debug_name: Option<Seq<char>>,
    size: ImageSize,
    decoded: Seq<DecodedLevel>,
    i: int,
)
    requires
        0 <= i < decoded.len(),
        decoded[i].decoding is Done,
    ensures
        level_files(layout, hash, debug_name, size, decoded).len() == done_count(decoded),
        level_files(layout, hash, debug_name, size, decoded).contains(
            level_file(layout, hash, debug_name, size, decoded[i]),
        ),
    decreases decoded.len(),
{
    let shorter = decoded.drop_last();
    let before = level_files(layout, hash, debug_name, size, shorter);
    let all = level_files(layout, hash, debug_name, size, decoded);
    lemma_level_file_count(layout, hash, debug_name, size, decoded);
    if i < shorter.len() {
        law_each_decoded_level_has_a_file(layout, hash, debug_name, size, shorter, i);
        let file = level_file(layout, hash, debug_name, size, decoded[i]);
        assert(shorter[i] == decoded[i]);
        let k = choose|k: int| 0 <= k < before.len() && before[k] == file;
        assert(all[k] == file);
    } else {
        assert(all[all.len() - 1] == level_file(layout, hash, debug_name, size, decoded[i]));
    }
}

proof fn lemma_level_file_count(
    layout: Layout,
    hash: Seq<char>,
    debug_name: Option<Seq<char>>,
    size: ImageSize,
    decoded: Seq<DecodedLevel>,
)
    ensures
        level_files(layout, hash, debug_name, size, decoded).len() == done_count(decoded),
    decreases decoded.len(),
{
    if decoded.len() > 0 {
        lemma_level_file_count(layout, hash, debug_name, size, decoded.drop_last());
    }
}

/// Whatever happens to an image, at least one file comes of it, and where it could
/// not be converted that file holds the data as they are.
pub proof fn law_no_image_is_lost(
    layout: Layout,
    hash: Seq<char>,
    debug_name: Option<Seq<char>>,
    size: ImageSize,
    decoded: Seq<DecodedLevel>,
    data: Seq<u8>,
)
    ensures
        image_conversion(layout, hash, debug_name, size, decoded, data).files.len() > 0,
        decoding_failure(decoded) is Some ==> {
            let conversion = image_conversion(layout, hash, debug_name, size, decoded, data);
            &&& conversion.warning is Some
            &&& conversion.files.len() == 1
            &&& conversion.files[0].bytes == data
        },
{
    if decoding_failure(decoded) is None {
        law_each_decoded_level_has_a_file(layout, hash, debug_name, size, decoded, 0);
    }
}

/// Whatever happens to a sound, exactly one file comes of it, and where it could not
/// be converted that file holds the data as they are.
pub proof fn law_no_sound_is_lost(
    layout: Layout,
    hash: Seq<char>,
    debug_name: Option<Seq<char>>,
    converted: Result<Vec<u8>, String>,
    data: Seq<u8>,
)
    ensures
        audio_conversion(layout, hash, debug_name, converted, data).files.len() == 1,
        audio_conversion(layout, hash, debug_name, converted, data).files[0].bytes == match converted {
            Ok(wav) => wav@,
            Err(_) => data,
        },
        audio_conversion(layout, hash, debug_name, converted, data).warning is Some <==> converted
            is Err,
{
}

/// The files of two runs of levels are those of the first and then those of the second.
/// A level that was decoded has one file: the picture of its pixels in its own size, in
/// the folder and under the name of the image. Any other level has none.
pub proof fn law_levels_are_written_in_order(
    layout: Layout,
    hash: Seq<char>,
    debug_name: Option<Seq<char>>,
    size: ImageSize,
    a: Seq<DecodedLevel>,
    b: Seq<DecodedLevel>,
    one: DecodedLevel,
)
    ensures
        level_files(layout, hash, debug_name, size, a + b) == level_files(
            layout,
            hash,
            debug_name,
            size,
            a,
        ) + level_files(layout, hash, debug_name, size, b),
        !(one.decoding is Done) ==> level_files(layout, hash, debug_name, size, seq![one]).len()
            == 0,
        one.decoding is Done ==> {
            let files = level_files(layout, hash, debug_name, size, seq![one]);
            &&& files.len() == 1
            &&& files[0].bytes == png_file(
                one.level.width,
                one.level.height,
                one.rgba@,
            )->Ok_0
            &&& files[0].place == place_of(
                layout,
                image_folder(size.width, size.height),
                hash,
                level_extension_of(one.level.level, size.levels),
                debug_name,
            )
        },
    decreases b.len(),
{
    reveal_with_fuel(level_files, 2);
    assert(seq![one].drop_last() =~= Seq::empty());
    if b.len() == 0 {
        assert(a + b =~= a);
    } else {
        assert((a + b).drop_last() =~= a + b.drop_last());
        law_levels_are_written_in_order(layout, hash, debug_name, size, a, b.drop_last(), one);
    }
}

/// The first level decides whether an image is converted. Where it was decoded, the user
/// is told nothing, whatever becomes of the others. Where it was not, or there is none,
/// the data go to the failed files as they are, and the user is told why.
pub proof fn law_first_level_decides(
    layout: Layout,
    hash: Seq<char>,
    debug_name: Option<Seq<char>>,
    size: ImageSize,
    decoded: Seq<DecodedLevel>,
    data: Seq<u8>,
    failed_file: FileModel,
)
    requires
        failed_file.place == place_of(layout, "failed"@, hash, "bin"@, debug_name),
        failed_file.bytes == data,
    ensures
        decoded.len() > 0 && decoded[0].decoding is Done ==> {
            let conversion = image_conversion(layout, hash, debug_name, size, decoded, data);
            &&& conversion.warning is None
            &&& conversion.files == level_files(layout, hash, debug_name, size, decoded)
        },
        decoded.len() == 0 ==> image_conversion(layout, hash, debug_name, size, decoded, data) == (
        ConversionModel {
            files: seq![failed_file],
            warning: Some("No mipmaps extracted for "@ + hash + ", saving to failed/"@),
        }),
        decoded.len() > 0 && decoded[0].decoding is Panicked ==> image_conversion(
            layout,
            hash,
            debug_name,
            size,
            decoded,
            data,
        ) == (ConversionModel {
            files: seq![failed_file],
            warning: Some(
                "Panic during decode of image "@ + hash + " level "@ + decimal(
                    decoded[0].level.level as nat,
                ) + ", saving to failed/"@,
            ),
        }),
        decoded.len() > 0 && decoded[0].decoding is Failed ==> image_conversion(
            layout,
            hash,
            debug_name,
            size,
            decoded,
            data,
        ) == (ConversionModel {
            files: seq![failed_file],
            warning: Some(
                "Failed to decode image "@ + hash + " level "@ + decimal(
                    decoded[0].level.level as nat,
                ) + ": "@ + decoded[0].decoding->Failed_0@ + ", saving to failed/"@,
            ),
        }),
{
}

/// An image that cannot be converted is kept as it is among the failed files.
pub proof fn law_failed_images_are_kept(
    layout: Layout,
    hash: Seq<char>,
    debug_name: Option<Seq<char>>,
    failure: ImageFailure,
    data: Seq<u8>,
)
    ensures
        image_failure(layout, hash, debug_name, failure, data).files == seq![
            FileModel {
                place: place_of(layout, "failed"@, hash, "bin"@, debug_name),
                bytes: data,
            },
        ],
        image_failure(layout, hash, debug_name, failure, data).warning == Some(
            failure_text(hash, failure),
        ),
{
}

/// A sound that was converted is written as it came out, among the sounds. One that was
/// not is kept as it is among the failed files, and the user is told why.
pub proof fn law_where_sounds_go(
    layout: Layout,
    hash: Seq<char>,
    debug_name: Option<Seq<char>>,
    wav: Vec<u8>,
    reason: String,
    data: Seq<u8>,
)
    ensures
        audio_conversion(layout, hash, debug_name, Ok(wav), data) == (ConversionModel {
            files: seq![
                FileModel {
                    place: place_of(layout, "audio"@, hash, "wav"@, debug_name),
                    bytes: wav@,
                },
            ],
            warning: None,
        }),
        audio_conversion(layout, hash, debug_name, Err(reason), data) == (ConversionModel {
            files: seq![
                FileModel {
                    place: place_of(layout, "failed"@, hash, "bin"@, debug_name),
                    bytes: data,
                },
            ],
            warning: Some(
                "Failed to convert audio "@ + hash + ": "@ + reason@ + ", saving to failed/"@,
            ),
        }),
{
}

/// The model of a conversion has all of its files, in order, with their places and
/// their bytes, and what the user is told.
pub proof fn law_model_has_all_files(conversion: Conversion, i: int)
    requires
        0 <= i < conversion.files@.len(),
    ensures
        conversion@.files.len() == conversion.files@.len(),
        conversion@.files[i].bytes == conversion.files@[i].bytes@,
        conversion@.files[i].place == texts(conversion.files@[i].place@),
        conversion@.warning is Some <==> conversion.warning is Some,
        conversion.warning is Some ==> conversion@.warning->0 == conversion.warning->0@,
{
}

/// A decoded level has pixels if there are four bytes for each, at least one pixel, and
/// both the picture and its rows are of a size that can be written.
pub proof fn law_what_has_pixels(decoded: DecodedLevel)
    ensures
        decoded.level.width > 0 && decoded.level.height > 0 && decoded.rgba@.len()
            == decoded.level.width as int * decoded.level.height as int * 4 && decoded.rgba@.len()
            <= usize::MAX && decoded.level.width as int * 4 < u32::MAX <==> has_pixels(decoded),
{
}

} // verus!
