//! The command line: flashing a firmware image, device aliases, the address to
//! listen on.

use vstd::prelude::*;

use crate::text;

verus! {

/// The espflash target of a chip name or its short form.
pub open spec fn chip_target(chip: Seq<char>) -> Option<Seq<char>> {
    let name = text::lower(text::trimmed(chip));
    if name == "esp32"@ {
        Some("esp32"@)
    } else if name == "c3"@ || name == "esp32c3"@ {
        Some("esp32c3"@)
    } else if name == "c5"@ || name == "esp32c5"@ {
        Some("esp32c5"@)
    } else if name == "c6"@ || name == "esp32c6"@ {
        Some("esp32c6"@)
    } else if name == "s3"@ || name == "esp32s3"@ {
        Some("esp32s3"@)
    } else {
        None
    }
}

/// Normalise a chip alias to its canonical espflash target name.
///
/// Every chip the firmware builds for can be flashed; which features that firmware
/// then offers is the firmware's business, not this command's.
pub fn canon_chip(chip: &str) -> (r: Option<&'static str>)
    ensures
        crate::serial::ports::opt_str(r) == chip_target(chip@),
{
    let name = text::lower_text(text::trim_text(chip).as_str());
    let s = name.as_str();
    if text::same(s, "esp32") {
        Some("esp32")
    } else if text::same(s, "c3") || text::same(s, "esp32c3") {
        Some("esp32c3")
    } else if text::same(s, "c5") || text::same(s, "esp32c5") {
        Some("esp32c5")
    } else if text::same(s, "c6") || text::same(s, "esp32c6") {
        Some("esp32c6")
    } else if text::same(s, "s3") || text::same(s, "esp32s3") {
        Some("esp32s3")
    } else {
        None
    }
}

/// Which merged image is flashed.
#[derive(Debug)]
pub enum Image {
    /// The one that was named.
    Named(String),
    /// The file of that name in the firmware directory.
    InFirmwareDir(String),
}

/// What an [`Image`] says.
#[verifier::ext_equal]
pub enum ImageText {
    Named(Seq<char>),
    InFirmwareDir(Seq<char>),
}

impl View for Image {
    type V = ImageText;

    open spec fn view(&self) -> ImageText {
        match *self {
            Image::Named(p) => ImageText::Named(p@),
            Image::InFirmwareDir(f) => ImageText::InFirmwareDir(f@),
        }
    }
}

/// What is said of a chip that there is not.
pub open spec fn unknown_chip(chip: Seq<char>) -> Seq<char> {
    "Unknown chip '"@ + chip + "' (use esp32, c3, c5, c6, or s3)"@
}

/// The image to flash.
pub open spec fn image_for(chip: Seq<char>, explicit: Option<Seq<char>>) -> Result<
    ImageText,
    Seq<char>,
> {
    match explicit {
        Some(p) => Ok(ImageText::Named(p)),
        None => match chip_target(chip) {
            Some(target) => Ok(
                ImageText::InFirmwareDir("esp-csi-cli-rs-"@ + target + ".bin"@),
            ),
            None => Err(unknown_chip(chip)),
        },
    }
}

/// A chosen image, as text.
pub open spec fn image_view(r: Result<Image, String>) -> Result<ImageText, Seq<char>> {
    match r {
        Ok(i) => Ok(i@),
        Err(e) => Err(e@),
    }
}

/// Resolve the merged `.bin`: an explicit image wins, else the conventional
/// `<firmware-dir>/esp-csi-cli-rs-<chip>.bin`.
pub fn resolve_image(chip: &str, explicit: &Option<String>) -> (r: Result<Image, String>)
    ensures
        image_view(r) == image_for(chip@, text::opt_text(*explicit)),
{
    match explicit {
        Some(p) => Ok(Image::Named(p.clone())),
        None => match canon_chip(chip) {
            Some(target) => Ok(
                Image::InFirmwareDir(text::join3("esp-csi-cli-rs-", target, ".bin")),
            ),
            None => Err(text::join3("Unknown chip '", chip, "' (use esp32, c3, c5, c6, or s3)")),
        },
    }
}

/// What a flash run needs: the target, and the image.
#[derive(Debug)]
pub struct FlashPlan {
    pub chip: &'static str,
    pub image: Image,
}

/// Checks the arguments of a flash run. The chip has to be known even where the
/// image is named.
pub fn run_flash(chip: &str, explicit: &Option<String>) -> (r: Result<FlashPlan, String>)
    ensures
        match r {
            Ok(plan) => {
                &&& chip_target(chip@) == Some(plan.chip@)
                &&& image_for(chip@, text::opt_text(*explicit)) == Ok::<ImageText, Seq<char>>(
                    plan.image@,
                )
            },
            Err(e) => chip_target(chip@) is None && e@ == unknown_chip(chip@),
        },
{
    match canon_chip(chip) {
        Some(target) => match resolve_image(chip, explicit) {
            Ok(image) => Ok(FlashPlan { chip: target, image }),
            Err(e) => Err(e),
        },
        None => Err(text::join3("Unknown chip '", chip, "' (use esp32, c3, c5, c6, or s3)")),
    }
}

/// The arguments of `espflash` for a port, a chip and an offset.
pub open spec fn flash_line(port: Seq<char>, chip: Seq<char>, address: Seq<char>) -> Seq<
    Seq<char>,
> {
    seq!["write-bin"@, "--port"@, port, "--chip"@, chip, address]
}

/// The arguments of `espflash` after the program's name, up to the image: a merged
/// image is flashed as one blob at the given offset.
pub fn espflash_args(port: &str, chip: &str, address: &str) -> (r: Vec<String>)
    ensures
        text::texts(r@) == flash_line(port@, chip@, address@),
{
    let out: Vec<String> = vec![
        "write-bin".to_owned(),
        "--port".to_owned(),
        port.to_owned(),
        "--chip".to_owned(),
        chip.to_owned(),
        address.to_owned(),
    ];
    assert(text::texts(out@) =~= flash_line(port@, chip@, address@));
    out
}

/// The aliases among `ALIAS=PORT_OR_MAC` arguments: those with a `=`, split at the
/// first.
pub open spec fn aliases_of(specs: Seq<String>) -> Seq<(Seq<char>, Seq<char>)>
    decreases specs.len(),
{
    if specs.len() == 0 {
        Seq::empty()
    } else {
        match text::split_once(specs.last()@, '=') {
            Some(pair) => aliases_of(specs.drop_last()).push(pair),
            None => aliases_of(specs.drop_last()),
        }
    }
}

/// Pairs of text.
pub open spec fn pairs_text(v: Seq<(String, String)>) -> Seq<(Seq<char>, Seq<char>)> {
    Seq::new(v.len(), |i: int| (v[i].0@, v[i].1@))
}

/// The aliases among `ALIAS=PORT_OR_MAC` arguments; one without a `=` is ignored.
pub fn parse_aliases(specs: &Vec<String>) -> (r: Vec<(String, String)>)
    ensures
        pairs_text(r@) == aliases_of(specs@),
{
    let mut out: Vec<(String, String)> = Vec::new();
    let mut i: usize = 0;
    assert(specs@.take(0) =~= Seq::empty());
    assert(pairs_text(out@) =~= Seq::empty());
    while i < specs.len()
        invariant
            i <= specs@.len(),
            pairs_text(out@) == aliases_of(specs@.take(i as int)),
        decreases specs@.len() - i,
    {
        assert(specs@.take(i + 1).drop_last() =~= specs@.take(i as int));
        let ghost before = pairs_text(out@);
        if let Some(pair) = text::split_once_text(specs[i].as_str(), '=') {
            let ghost added = (pair.0@, pair.1@);
            out.push(pair);
            assert(pairs_text(out@) =~= before.push(added));
        }
        i += 1;
    }
    assert(specs@.take(i as int) =~= specs@);
    out
}

/// The address of a port on an interface.
pub open spec fn socket_address(interface: Seq<char>, port: u16) -> Seq<char> {
    interface + ":"@ + text::decimal(port as nat)
}

/// The address to listen on.
pub fn bind_address(interface: &str, port: u16) -> (r: String)
    ensures
        r@ == socket_address(interface@, port),
{
    text::join3(interface, ":", text::decimal_text(port as u64).as_str())
}

// ── Laws ──────────────────────────────────────────────────────────────────

/// A canonical chip name is its own target.
pub proof fn law_targets_are_canonical(chip: Seq<char>)
    requires
        chip_target(chip) is Some,
    ensures
        chip_target(chip_target(chip)->0) == chip_target(chip),
{
    reveal_strlit("esp32");
    reveal_strlit("esp32c3");
    reveal_strlit("esp32c5");
    reveal_strlit("esp32c6");
    reveal_strlit("esp32s3");
    reveal_strlit("c3");
    reveal_strlit("c5");
    reveal_strlit("c6");
    reveal_strlit("s3");
    let t = chip_target(chip)->0;
    assert(text::trim_start(t) == t);
    assert(text::trim_end(t) == t);
    assert(text::lower(t) =~= t);
}

/// Each family is known by its short name and by its full one, in any letter case and
/// with white space around it, and by no other; nothing else is known.
pub proof fn law_chip_names(chip: Seq<char>)
    ensures
        ({
            let name = text::lower(text::trimmed(chip));
            let target = chip_target(chip);
            &&& target == Some("esp32"@) <==> name == "esp32"@
            &&& target == Some("esp32c3"@) <==> name == "c3"@ || name == "esp32c3"@
            &&& target == Some("esp32c5"@) <==> name == "c5"@ || name == "esp32c5"@
            &&& target == Some("esp32c6"@) <==> name == "c6"@ || name == "esp32c6"@
            &&& target == Some("esp32s3"@) <==> name == "s3"@ || name == "esp32s3"@
            &&& target matches Some(t) ==> t == name || t == "esp32"@ + name
        }),
{
    reveal_strlit("esp32");
    reveal_strlit("c3");
    reveal_strlit("esp32c3");
    reveal_strlit("c5");
    reveal_strlit("esp32c5");
    reveal_strlit("c6");
    reveal_strlit("esp32c6");
    reveal_strlit("s3");
    reveal_strlit("esp32s3");
    assert("esp32"@.len() == 5 && "esp32"@[3] == '3' && "esp32"@[4] == '2');
    assert("c3"@.len() == 2 && "c3"@[0] == 'c' && "c3"@[1] == '3');
    assert("esp32c3"@.len() == 7 && "esp32c3"@[5] == 'c' && "esp32c3"@[6] == '3');
    assert("c5"@.len() == 2 && "c5"@[0] == 'c' && "c5"@[1] == '5');
    assert("esp32c5"@.len() == 7 && "esp32c5"@[5] == 'c' && "esp32c5"@[6] == '5');
    assert("c6"@.len() == 2 && "c6"@[0] == 'c' && "c6"@[1] == '6');
    assert("esp32c6"@.len() == 7 && "esp32c6"@[5] == 'c' && "esp32c6"@[6] == '6');
    assert("s3"@.len() == 2 && "s3"@[0] == 's' && "s3"@[1] == '3');
    assert("esp32s3"@.len() == 7 && "esp32s3"@[5] == 's' && "esp32s3"@[6] == '3');
    assert("esp32c3"@ =~= "esp32"@ + "c3"@);
    assert("esp32c5"@ =~= "esp32"@ + "c5"@);
    assert("esp32c6"@ =~= "esp32"@ + "c6"@);
    assert("esp32s3"@ =~= "esp32"@ + "s3"@);
}

/// A named image is the one that is flashed, for any chip. Without one it is the file of
/// the chip's target, and a chip that is not known is refused by its name.
pub proof fn law_images(chip: Seq<char>, path: Seq<char>)
    ensures
        image_for(chip, Some(path)) == Ok::<ImageText, Seq<char>>(ImageText::Named(path)),
        chip_target(chip) matches Some(t) ==> image_for(chip, None) == Ok::<ImageText, Seq<char>>(
            ImageText::InFirmwareDir("esp-csi-cli-rs-"@ + t + ".bin"@),
        ),
        chip_target(chip) is None ==> image_for(chip, None) == Err::<ImageText, Seq<char>>(
            "Unknown chip '"@ + chip + "' (use esp32, c3, c5, c6, or s3)"@,
        ),
        unknown_chip(chip) == "Unknown chip '"@ + chip + "' (use esp32, c3, c5, c6, or s3)"@,
{
}

/// What an image says is what it holds.
pub proof fn law_images_show_their_paths(image: Image, refused: String)
    ensures
        image matches Image::Named(p) ==> image@ == ImageText::Named(p@),
        image matches Image::InFirmwareDir(f) ==> image@ == ImageText::InFirmwareDir(f@),
        image_view(Ok(image)) == Ok::<ImageText, Seq<char>>(image@),
        image_view(Err(refused)) == Err::<ImageText, Seq<char>>(refused@),
{
}

/// A merged image is written as one blob: each option is followed by its value, and the
/// offset comes last.
pub proof fn law_flash_line(port: Seq<char>, chip: Seq<char>, address: Seq<char>)
    ensures
        ({
            let line = flash_line(port, chip, address);
            &&& line.len() == 6
            &&& line[0] == "write-bin"@
            &&& line[1] == "--port"@ && line[2] == port
            &&& line[3] == "--chip"@ && line[4] == chip
            &&& line.last() == address
        }),
{
}

/// Of a further argument, what stands before its first `=` is the alias of what stands
/// behind it; one without a `=` is no alias.
pub proof fn law_aliases(specs: Seq<String>, arg: String, a: Seq<char>, b: Seq<char>)
    requires
        !a.contains('='),
    ensures
        aliases_of(Seq::empty()).len() == 0,
        arg@ == a.push('=') + b ==> aliases_of(specs.push(arg)) == aliases_of(specs).push((a, b)),
        arg@ == a ==> aliases_of(specs.push(arg)) == aliases_of(specs),
{
    text::law_splitting(a, b, '=');
    assert(specs.push(arg).drop_last() =~= specs);
}

/// Pairs of text show both of their sides, in order.
pub proof fn law_pairs_show_their_sides(v: Seq<(String, String)>)
    ensures
        pairs_text(v).len() == v.len(),
        forall|i: int|
            0 <= i < v.len() ==> (#[trigger] pairs_text(v)[i]).0 == v[i].0@ && pairs_text(v)[i].1
                == v[i].1@,
{
}

/// An address is the interface, a colon and the port's number.
pub proof fn law_socket_address(interface: Seq<char>, port: u16)
    ensures
        ({
            let a = socket_address(interface, port);
            let n = interface.len() as int;
            &&& a.len() > n + 1
            &&& a.take(n) == interface
            &&& a[n] == ':'
            &&& text::u32_of(a.skip(n + 1)) == Some(port as u32)
            &&& a.skip(n + 1)[0] != '+'
        }),
{
    reveal_strlit(":");
    let a = socket_address(interface, port);
    let n = interface.len() as int;
    text::law_numbers_are_read(a, port as u32);
    text::law_decimal_form(port as nat, port as nat);
    assert(a.take(n) =~= interface);
    assert(a.skip(n + 1) =~= text::decimal(port as nat));
}

} // verus!
