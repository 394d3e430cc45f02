//! The color names a typed color may use, with their RGB values.

use vstd::prelude::*;

verus! {

/// The RGB value of a color name (lower case, no spaces), if it is one of
/// the names `colorskill` knows.
pub open spec fn color_name(n: Seq<char>) -> Option<(u8, u8, u8)> {
    if n == "maroon"@ {
        Some((128u8, 0u8, 0u8))
    } else if n == "darkred"@ {
        Some((139u8, 0u8, 0u8))
    } else if n == "brown"@ {
        Some((165u8, 42u8, 42u8))
    } else if n == "firebrick"@ {
        Some((178u8, 34u8, 34u8))
    } else if n == "crimson"@ {
        Some((220u8, 20u8, 60u8))
    } else if n == "red"@ {
        Some((255u8, 0u8, 0u8))
    } else if n == "tomato"@ {
        Some((255u8, 99u8, 71u8))
    } else if n == "coral"@ {
        Some((255u8, 127u8, 80u8))
    } else if n == "indianred"@ {
        Some((205u8, 92u8, 92u8))
    } else if n == "lightcoral"@ {
        Some((240u8, 128u8, 128u8))
    } else if n == "darksalmon"@ {
        Some((233u8, 150u8, 122u8))
    } else if n == "salmon"@ {
        Some((250u8, 128u8, 114u8))
    } else if n == "lightsalmon"@ {
        Some((255u8, 160u8, 122u8))
    } else if n == "orangered"@ {
        Some((255u8, 69u8, 0u8))
    } else if n == "darkorange"@ {
        Some((255u8, 140u8, 0u8))
    } else if n == "orange"@ {
        Some((255u8, 165u8, 0u8))
    } else if n == "gold"@ {
        Some((255u8, 215u8, 0u8))
    } else if n == "darkgoldenrod"@ {
        Some((184u8, 134u8, 11u8))
    } else if n == "goldenrod"@ {
        Some((218u8, 165u8, 32u8))
    } else if n == "palegoldenrod"@ {
        Some((238u8, 232u8, 170u8))
    } else if n == "darkkhaki"@ {
        Some((189u8, 183u8, 107u8))
    } else if n == "khaki"@ {
        Some((240u8, 230u8, 140u8))
    } else if n == "olive"@ {
        Some((128u8, 128u8, 0u8))
    } else if n == "yellow"@ {
        Some((255u8, 255u8, 0u8))
    } else if n == "yellowgreen"@ {
        Some((154u8, 205u8, 50u8))
    } else if n == "darkolivegreen"@ {
        Some((85u8, 107u8, 47u8))
    } else if n == "olivedrab"@ {
        Some((107u8, 142u8, 35u8))
    } else if n == "lawngreen"@ {
        Some((124u8, 252u8, 0u8))
    } else if n == "chartreuse"@ {
        Some((127u8, 255u8, 0u8))
    } else if n == "greenyellow"@ {
        Some((173u8, 255u8, 47u8))
    } else if n == "darkgreen"@ {
        Some((0u8, 100u8, 0u8))
    } else if n == "green"@ {
        Some((0u8, 128u8, 0u8))
    } else if n == "forestgreen"@ {
        Some((34u8, 139u8, 34u8))
    } else if n == "lime"@ {
        Some((0u8, 255u8, 0u8))
    } else if n == "limegreen"@ {
        Some((50u8, 205u8, 50u8))
    } else if n == "lightgreen"@ {
        Some((144u8, 238u8, 144u8))
    } else if n == "palegreen"@ {
        Some((152u8, 251u8, 152u8))
    } else if n == "darkseagreen"@ {
        Some((143u8, 188u8, 143u8))
    } else if n == "mediumspringgreen"@ {
        Some((0u8, 250u8, 154u8))
    } else if n == "springgreen"@ {
        Some((0u8, 255u8, 127u8))
    } else if n == "seagreen"@ {
        Some((46u8, 139u8, 87u8))
    } else if n == "mediumaquamarine"@ {
        Some((102u8, 205u8, 170u8))
    } else if n == "mediumseagreen"@ {
        Some((60u8, 179u8, 113u8))
    } else if n == "lightseagreen"@ {
        Some((32u8, 178u8, 170u8))
    } else if n == "darkslategray"@ {
        Some((47u8, 79u8, 79u8))
    } else if n == "teal"@ {
        Some((0u8, 128u8, 128u8))
    } else if n == "darkcyan"@ {
        Some((0u8, 139u8, 139u8))
    } else if n == "aqua"@ {
        Some((0u8, 255u8, 255u8))
    } else if n == "cyan"@ {
        Some((0u8, 255u8, 255u8))
    } else if n == "lightcyan"@ {
        Some((224u8, 255u8, 255u8))
    } else if n == "darkturquoise"@ {
        Some((0u8, 206u8, 209u8))
    } else if n == "turquoise"@ {
        Some((64u8, 224u8, 208u8))
    } else if n == "mediumturquoise"@ {
        Some((72u8, 209u8, 204u8))
    } else if n == "paleturquoise"@ {
        Some((175u8, 238u8, 238u8))
    } else if n == "aquamarine"@ {
        Some((127u8, 255u8, 212u8))
    } else if n == "powderblue"@ {
        Some((176u8, 224u8, 230u8))
    } else if n == "cadetblue"@ {
        Some((95u8, 158u8, 160u8))
    } else if n == "steelblue"@ {
        Some((70u8, 130u8, 180u8))
    } else if n == "cornflowerblue"@ {
        Some((100u8, 149u8, 237u8))
    } else if n == "deepskyblue"@ {
        Some((0u8, 191u8, 255u8))
    } else if n == "dodgerblue"@ {
        Some((30u8, 144u8, 255u8))
    } else if n == "lightblue"@ {
        Some((173u8, 216u8, 230u8))
    } else if n == "skyblue"@ {
        Some((135u8, 206u8, 235u8))
    } else if n == "lightskyblue"@ {
        Some((135u8, 206u8, 250u8))
    } else if n == "midnightblue"@ {
        Some((25u8, 25u8, 112u8))
    } else if n == "navy"@ {
        Some((0u8, 0u8, 128u8))
    } else if n == "darkblue"@ {
        Some((0u8, 0u8, 139u8))
    } else if n == "mediumblue"@ {
        Some((0u8, 0u8, 205u8))
    } else if n == "blue"@ {
        Some((0u8, 0u8, 255u8))
    } else if n == "royalblue"@ {
        Some((65u8, 105u8, 225u8))
    } else if n == "blueviolet"@ {
        Some((138u8, 43u8, 226u8))
    } else if n == "indigo"@ {
        Some((75u8, 0u8, 130u8))
    } else if n == "darkslateblue"@ {
        Some((72u8, 61u8, 139u8))
    } else if n == "slateblue"@ {
        Some((106u8, 90u8, 205u8))
    } else if n == "mediumslateblue"@ {
        Some((123u8, 104u8, 238u8))
    } else if n == "mediumpurple"@ {
        Some((147u8, 112u8, 219u8))
    } else if n == "darkmagenta"@ {
        Some((139u8, 0u8, 139u8))
    } else if n == "darkviolet"@ {
        Some((148u8, 0u8, 211u8))
    } else if n == "darkorchid"@ {
        Some((153u8, 50u8, 204u8))
    } else if n == "mediumorchid"@ {
        Some((186u8, 85u8, 211u8))
    } else if n == "purple"@ {
        Some((128u8, 0u8, 128u8))
    } else if n == "thistle"@ {
        Some((216u8, 191u8, 216u8))
    } else if n == "plum"@ {
        Some((221u8, 160u8, 221u8))
    } else if n == "violet"@ {
        Some((238u8, 130u8, 238u8))
    } else if n == "magenta"@ {
        Some((255u8, 0u8, 255u8))
    } else if n == "fuchsia"@ {
        Some((255u8, 0u8, 255u8))
    } else if n == "orchid"@ {
        Some((218u8, 112u8, 214u8))
    } else if n == "mediumvioletred"@ {
        Some((199u8, 21u8, 133u8))
    } else if n == "palevioletred"@ {
        Some((219u8, 112u8, 147u8))
    } else if n == "deeppink"@ {
        Some((255u8, 20u8, 147u8))
    } else if n == "hotpink"@ {
        Some((255u8, 105u8, 180u8))
    } else if n == "lightpink"@ {
        Some((255u8, 182u8, 193u8))
    } else if n == "pink"@ {
        Some((255u8, 192u8, 203u8))
    } else if n == "antiquewhite"@ {
        Some((250u8, 235u8, 215u8))
    } else if n == "beige"@ {
        Some((245u8, 245u8, 220u8))
    } else if n == "bisque"@ {
        Some((255u8, 228u8, 196u8))
    } else if n == "blanchedalmond"@ {
        Some((255u8, 235u8, 205u8))
    } else if n == "wheat"@ {
        Some((245u8, 222u8, 179u8))
    } else if n == "cornsilk"@ {
        Some((255u8, 248u8, 220u8))
    } else if n == "lemonchiffon"@ {
        Some((255u8, 250u8, 205u8))
    } else if n == "lightgoldenrodyellow"@ {
        Some((250u8, 250u8, 210u8))
    } else if n == "lightyellow"@ {
        Some((255u8, 255u8, 224u8))
    } else if n == "saddlebrown"@ {
        Some((139u8, 69u8, 19u8))
    } else if n == "sienna"@ {
        Some((160u8, 82u8, 45u8))
    } else if n == "chocolate"@ {
        Some((210u8, 105u8, 30u8))
    } else if n == "peru"@ {
        Some((205u8, 133u8, 63u8))
    } else if n == "sandybrown"@ {
        Some((244u8, 164u8, 96u8))
    } else if n == "burlywood"@ {
        Some((222u8, 184u8, 135u8))
    } else if n == "tan"@ {
        Some((210u8, 180u8, 140u8))
    } else if n == "rosybrown"@ {
        Some((188u8, 143u8, 143u8))
    } else if n == "moccasin"@ {
        Some((255u8, 228u8, 181u8))
    } else if n == "navajowhite"@ {
        Some((255u8, 222u8, 173u8))
    } else if n == "peachpuff"@ {
        Some((255u8, 218u8, 185u8))
    } else if n == "mistyrose"@ {
        Some((255u8, 228u8, 225u8))
    } else if n == "lavenderblush"@ {
        Some((255u8, 240u8, 245u8))
    } else if n == "linen"@ {
        Some((250u8, 240u8, 230u8))
    } else if n == "oldlace"@ {
        Some((253u8, 245u8, 230u8))
    } else if n == "papayawhip"@ {
        Some((255u8, 239u8, 213u8))
    } else if n == "seashell"@ {
        Some((255u8, 245u8, 238u8))
    } else if n == "mintcream"@ {
        Some((245u8, 255u8, 250u8))
    } else if n == "slategray"@ {
        Some((112u8, 128u8, 144u8))
    } else if n == "lightslategray"@ {
        Some((119u8, 136u8, 153u8))
    } else if n == "lightsteelblue"@ {
        Some((176u8, 196u8, 222u8))
    } else if n == "lavender"@ {
        Some((230u8, 230u8, 250u8))
    } else if n == "floralwhite"@ {
        Some((255u8, 250u8, 240u8))
    } else if n == "aliceblue"@ {
        Some((240u8, 248u8, 255u8))
    } else if n == "ghostwhite"@ {
        Some((248u8, 248u8, 255u8))
    } else if n == "honeydew"@ {
        Some((240u8, 255u8, 240u8))
    } else if n == "ivory"@ {
        Some((255u8, 255u8, 240u8))
    } else if n == "azure"@ {
        Some((240u8, 255u8, 255u8))
    } else if n == "snow"@ {
        Some((255u8, 250u8, 250u8))
    } else if n == "black"@ {
        Some((0u8, 0u8, 0u8))
    } else if n == "dimgray"@ {
        Some((105u8, 105u8, 105u8))
    } else if n == "dimgrey"@ {
        Some((105u8, 105u8, 105u8))
    } else if n == "gray"@ {
        Some((128u8, 128u8, 128u8))
    } else if n == "grey"@ {
        Some((128u8, 128u8, 128u8))
    } else if n == "darkgray"@ {
        Some((169u8, 169u8, 169u8))
    } else if n == "darkgrey"@ {
        Some((169u8, 169u8, 169u8))
    } else if n == "silver"@ {
        Some((192u8, 192u8, 192u8))
    } else if n == "lightgray"@ {
        Some((211u8, 211u8, 211u8))
    } else if n == "lightgrey"@ {
        Some((211u8, 211u8, 211u8))
    } else if n == "gainsboro"@ {
        Some((220u8, 220u8, 220u8))
    } else if n == "whitesmoke"@ {
        Some((245u8, 245u8, 245u8))
    } else if n == "white"@ {
        Some((255u8, 255u8, 255u8))
    } else {
        None
    }
}

} // verus!
