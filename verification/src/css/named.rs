//! The CSS named colors.
use crate::text;
use vstd::prelude::*;

verus! {

/// How many named colors there are.
pub const NAMED_COLOR_COUNT: usize = 148;

/// One row of the table of named colors: the name and its sRGB channels.
pub open spec fn named_row(i: int) -> (Seq<char>, u8, u8, u8) {
    if i == 0 {
        ("aliceblue"@, 240u8, 248u8, 255u8)
    } else if i == 1 {
        ("antiquewhite"@, 250u8, 235u8, 215u8)
    } else if i == 2 {
        ("aqua"@, 0u8, 255u8, 255u8)
    } else if i == 3 {
        ("aquamarine"@, 127u8, 255u8, 212u8)
    } else if i == 4 {
        ("azure"@, 240u8, 255u8, 255u8)
    } else if i == 5 {
        ("beige"@, 245u8, 245u8, 220u8)
    } else if i == 6 {
        ("bisque"@, 255u8, 228u8, 196u8)
    } else if i == 7 {
        ("black"@, 0u8, 0u8, 0u8)
    } else if i == 8 {
        ("blanchedalmond"@, 255u8, 235u8, 205u8)
    } else if i == 9 {
        ("blue"@, 0u8, 0u8, 255u8)
    } else if i == 10 {
        ("blueviolet"@, 138u8, 43u8, 226u8)
    } else if i == 11 {
        ("brown"@, 165u8, 42u8, 42u8)
    } else if i == 12 {
        ("burlywood"@, 222u8, 184u8, 135u8)
    } else if i == 13 {
        ("cadetblue"@, 95u8, 158u8, 160u8)
    } else if i == 14 {
        ("chartreuse"@, 127u8, 255u8, 0u8)
    } else if i == 15 {
        ("chocolate"@, 210u8, 105u8, 30u8)
    } else if i == 16 {
        ("coral"@, 255u8, 127u8, 80u8)
    } else if i == 17 {
        ("cornflowerblue"@, 100u8, 149u8, 237u8)
    } else if i == 18 {
        ("cornsilk"@, 255u8, 248u8, 220u8)
    } else if i == 19 {
        ("crimson"@, 220u8, 20u8, 60u8)
    } else if i == 20 {
        ("cyan"@, 0u8, 255u8, 255u8)
    } else if i == 21 {
        ("darkblue"@, 0u8, 0u8, 139u8)
    } else if i == 22 {
        ("darkcyan"@, 0u8, 139u8, 139u8)
    } else if i == 23 {
        ("darkgoldenrod"@, 184u8, 134u8, 11u8)
    } else if i == 24 {
        ("darkgray"@, 169u8, 169u8, 169u8)
    } else if i == 25 {
        ("darkgreen"@, 0u8, 100u8, 0u8)
    } else if i == 26 {
        ("darkgrey"@, 169u8, 169u8, 169u8)
    } else if i == 27 {
        ("darkkhaki"@, 189u8, 183u8, 107u8)
    } else if i == 28 {
        ("darkmagenta"@, 139u8, 0u8, 139u8)
    } else if i == 29 {
        ("darkolivegreen"@, 85u8, 107u8, 47u8)
    } else if i == 30 {
        ("darkorange"@, 255u8, 140u8, 0u8)
    } else if i == 31 {
        ("darkorchid"@, 153u8, 50u8, 204u8)
    } else if i == 32 {
        ("darkred"@, 139u8, 0u8, 0u8)
    } else if i == 33 {
        ("darksalmon"@, 233u8, 150u8, 122u8)
    } else if i == 34 {
        ("darkseagreen"@, 143u8, 188u8, 143u8)
    } else if i == 35 {
        ("darkslateblue"@, 72u8, 61u8, 139u8)
    } else if i == 36 {
        ("darkslategray"@, 47u8, 79u8, 79u8)
    } else if i == 37 {
        ("darkslategrey"@, 47u8, 79u8, 79u8)
    } else if i == 38 {
        ("darkturquoise"@, 0u8, 206u8, 209u8)
    } else if i == 39 {
        ("darkviolet"@, 148u8, 0u8, 211u8)
    } else if i == 40 {
        ("deeppink"@, 255u8, 20u8, 147u8)
    } else if i == 41 {
        ("deepskyblue"@, 0u8, 191u8, 255u8)
    } else if i == 42 {
        ("dimgray"@, 105u8, 105u8, 105u8)
    } else if i == 43 {
        ("dimgrey"@, 105u8, 105u8, 105u8)
    } else if i == 44 {
        ("dodgerblue"@, 30u8, 144u8, 255u8)
    } else if i == 45 {
        ("firebrick"@, 178u8, 34u8, 34u8)
    } else if i == 46 {
        ("floralwhite"@, 255u8, 250u8, 240u8)
    } else if i == 47 {
        ("forestgreen"@, 34u8, 139u8, 34u8)
    } else if i == 48 {
        ("fuchsia"@, 255u8, 0u8, 255u8)
    } else if i == 49 {
        ("gainsboro"@, 220u8, 220u8, 220u8)
    } else if i == 50 {
        ("ghostwhite"@, 248u8, 248u8, 255u8)
    } else if i == 51 {
        ("gold"@, 255u8, 215u8, 0u8)
    } else if i == 52 {
        ("goldenrod"@, 218u8, 165u8, 32u8)
    } else if i == 53 {
        ("gray"@, 128u8, 128u8, 128u8)
    } else if i == 54 {
        ("green"@, 0u8, 128u8, 0u8)
    } else if i == 55 {
        ("greenyellow"@, 173u8, 255u8, 47u8)
    } else if i == 56 {
        ("grey"@, 128u8, 128u8, 128u8)
    } else if i == 57 {
        ("honeydew"@, 240u8, 255u8, 240u8)
    } else if i == 58 {
        ("hotpink"@, 255u8, 105u8, 180u8)
    } else if i == 59 {
        ("indianred"@, 205u8, 92u8, 92u8)
    } else if i == 60 {
        ("indigo"@, 75u8, 0u8, 130u8)
    } else if i == 61 {
        ("ivory"@, 255u8, 255u8, 240u8)
    } else if i == 62 {
        ("khaki"@, 240u8, 230u8, 140u8)
    } else if i == 63 {
        ("lavender"@, 230u8, 230u8, 250u8)
    } else if i == 64 {
        ("lavenderblush"@, 255u8, 240u8, 245u8)
    } else if i == 65 {
        ("lawngreen"@, 124u8, 252u8, 0u8)
    } else if i == 66 {
        ("lemonchiffon"@, 255u8, 250u8, 205u8)
    } else if i == 67 {
        ("lightblue"@, 173u8, 216u8, 230u8)
    } else if i == 68 {
        ("lightcoral"@, 240u8, 128u8, 128u8)
    } else if i == 69 {
        ("lightcyan"@, 224u8, 255u8, 255u8)
    } else if i == 70 {
        ("lightgoldenrodyellow"@, 250u8, 250u8, 210u8)
    } else if i == 71 {
        ("lightgray"@, 211u8, 211u8, 211u8)
    } else if i == 72 {
        ("lightgreen"@, 144u8, 238u8, 144u8)
    } else if i == 73 {
        ("lightgrey"@, 211u8, 211u8, 211u8)
    } else if i == 74 {
        ("lightpink"@, 255u8, 182u8, 193u8)
    } else if i == 75 {
        ("lightsalmon"@, 255u8, 160u8, 122u8)
    } else if i == 76 {
        ("lightseagreen"@, 32u8, 178u8, 170u8)
    } else if i == 77 {
        ("lightskyblue"@, 135u8, 206u8, 250u8)
    } else if i == 78 {
        ("lightslategray"@, 119u8, 136u8, 153u8)
    } else if i == 79 {
        ("lightslategrey"@, 119u8, 136u8, 153u8)
    } else if i == 80 {
        ("lightsteelblue"@, 176u8, 196u8, 222u8)
    } else if i == 81 {
        ("lightyellow"@, 255u8, 255u8, 224u8)
    } else if i == 82 {
        ("lime"@, 0u8, 255u8, 0u8)
    } else if i == 83 {
        ("limegreen"@, 50u8, 205u8, 50u8)
    } else if i == 84 {
        ("linen"@, 250u8, 240u8, 230u8)
    } else if i == 85 {
        ("magenta"@, 255u8, 0u8, 255u8)
    } else if i == 86 {
        ("maroon"@, 128u8, 0u8, 0u8)
    } else if i == 87 {
        ("mediumaquamarine"@, 102u8, 205u8, 170u8)
    } else if i == 88 {
        ("mediumblue"@, 0u8, 0u8, 205u8)
    } else if i == 89 {
        ("mediumorchid"@, 186u8, 85u8, 211u8)
    } else if i == 90 {
        ("mediumpurple"@, 147u8, 112u8, 219u8)
    } else if i == 91 {
        ("mediumseagreen"@, 60u8, 179u8, 113u8)
    } else if i == 92 {
        ("mediumslateblue"@, 123u8, 104u8, 238u8)
    } else if i == 93 {
        ("mediumspringgreen"@, 0u8, 250u8, 154u8)
    } else if i == 94 {
        ("mediumturquoise"@, 72u8, 209u8, 204u8)
    } else if i == 95 {
        ("mediumvioletred"@, 199u8, 21u8, 133u8)
    } else if i == 96 {
        ("midnightblue"@, 25u8, 25u8, 112u8)
    } else if i == 97 {
        ("mintcream"@, 245u8, 255u8, 250u8)
    } else if i == 98 {
        ("mistyrose"@, 255u8, 228u8, 225u8)
    } else if i == 99 {
        ("moccasin"@, 255u8, 228u8, 181u8)
    } else if i == 100 {
        ("navajowhite"@, 255u8, 222u8, 173u8)
    } else if i == 101 {
        ("navy"@, 0u8, 0u8, 128u8)
    } else if i == 102 {
        ("oldlace"@, 253u8, 245u8, 230u8)
    } else if i == 103 {
        ("olive"@, 128u8, 128u8, 0u8)
    } else if i == 104 {
        ("olivedrab"@, 107u8, 142u8, 35u8)
    } else if i == 105 {
        ("orange"@, 255u8, 165u8, 0u8)
    } else if i == 106 {
        ("orangered"@, 255u8, 69u8, 0u8)
    } else if i == 107 {
        ("orchid"@, 218u8, 112u8, 214u8)
    } else if i == 108 {
        ("palegoldenrod"@, 238u8, 232u8, 170u8)
    } else if i == 109 {
        ("palegreen"@, 152u8, 251u8, 152u8)
    } else if i == 110 {
        ("paleturquoise"@, 175u8, 238u8, 238u8)
    } else if i == 111 {
        ("palevioletred"@, 219u8, 112u8, 147u8)
    } else if i == 112 {
        ("papayawhip"@, 255u8, 239u8, 213u8)
    } else if i == 113 {
        ("peachpuff"@, 255u8, 218u8, 185u8)
    } else if i == 114 {
        ("peru"@, 205u8, 133u8, 63u8)
    } else if i == 115 {
        ("pink"@, 255u8, 192u8, 203u8)
    } else if i == 116 {
        ("plum"@, 221u8, 160u8, 221u8)
    } else if i == 117 {
        ("powderblue"@, 176u8, 224u8, 230u8)
    } else if i == 118 {
        ("purple"@, 128u8, 0u8, 128u8)
    } else if i == 119 {
        ("rebeccapurple"@, 102u8, 51u8, 153u8)
    } else if i == 120 {
        ("red"@, 255u8, 0u8, 0u8)
    } else if i == 121 {
        ("rosybrown"@, 188u8, 143u8, 143u8)
    } else if i == 122 {
        ("royalblue"@, 65u8, 105u8, 225u8)
    } else if i == 123 {
        ("saddlebrown"@, 139u8, 69u8, 19u8)
    } else if i == 124 {
        ("salmon"@, 250u8, 128u8, 114u8)
    } else if i == 125 {
        ("sandybrown"@, 244u8, 164u8, 96u8)
    } else if i == 126 {
        ("seagreen"@, 46u8, 139u8, 87u8)
    } else if i == 127 {
        ("seashell"@, 255u8, 245u8, 238u8)
    } else if i == 128 {
        ("sienna"@, 160u8, 82u8, 45u8)
    } else if i == 129 {
        ("silver"@, 192u8, 192u8, 192u8)
    } else if i == 130 {
        ("skyblue"@, 135u8, 206u8, 235u8)
    } else if i == 131 {
        ("slateblue"@, 106u8, 90u8, 205u8)
    } else if i == 132 {
        ("slategray"@, 112u8, 128u8, 144u8)
    } else if i == 133 {
        ("slategrey"@, 112u8, 128u8, 144u8)
    } else if i == 134 {
        ("snow"@, 255u8, 250u8, 250u8)
    } else if i == 135 {
        ("springgreen"@, 0u8, 255u8, 127u8)
    } else if i == 136 {
        ("steelblue"@, 70u8, 130u8, 180u8)
    } else if i == 137 {
        ("tan"@, 210u8, 180u8, 140u8)
    } else if i == 138 {
        ("teal"@, 0u8, 128u8, 128u8)
    } else if i == 139 {
        ("thistle"@, 216u8, 191u8, 216u8)
    } else if i == 140 {
        ("tomato"@, 255u8, 99u8, 71u8)
    } else if i == 141 {
        ("turquoise"@, 64u8, 224u8, 208u8)
    } else if i == 142 {
        ("violet"@, 238u8, 130u8, 238u8)
    } else if i == 143 {
        ("wheat"@, 245u8, 222u8, 179u8)
    } else if i == 144 {
        ("white"@, 255u8, 255u8, 255u8)
    } else if i == 145 {
        ("whitesmoke"@, 245u8, 245u8, 245u8)
    } else if i == 146 {
        ("yellow"@, 255u8, 255u8, 0u8)
    } else if i == 147 {
        ("yellowgreen"@, 154u8, 205u8, 50u8)
    } else {
        (""@, 0u8, 0u8, 0u8)
    }
}

/// The row at `i`.
fn row(i: usize) -> (r: (&'static str, u8, u8, u8))
    requires
        i < NAMED_COLOR_COUNT,
    ensures
        (r.0@, r.1, r.2, r.3) == named_row(i as int),
{
    match i {
        0 => ("aliceblue", 240, 248, 255),
        1 => ("antiquewhite", 250, 235, 215),
        2 => ("aqua", 0, 255, 255),
        3 => ("aquamarine", 127, 255, 212),
        4 => ("azure", 240, 255, 255),
        5 => ("beige", 245, 245, 220),
        6 => ("bisque", 255, 228, 196),
        7 => ("black", 0, 0, 0),
        8 => ("blanchedalmond", 255, 235, 205),
        9 => ("blue", 0, 0, 255),
        10 => ("blueviolet", 138, 43, 226),
        11 => ("brown", 165, 42, 42),
        12 => ("burlywood", 222, 184, 135),
        13 => ("cadetblue", 95, 158, 160),
        14 => ("chartreuse", 127, 255, 0),
        15 => ("chocolate", 210, 105, 30),
        16 => ("coral", 255, 127, 80),
        17 => ("cornflowerblue", 100, 149, 237),
        18 => ("cornsilk", 255, 248, 220),
        19 => ("crimson", 220, 20, 60),
        20 => ("cyan", 0, 255, 255),
        21 => ("darkblue", 0, 0, 139),
        22 => ("darkcyan", 0, 139, 139),
        23 => ("darkgoldenrod", 184, 134, 11),
        24 => ("darkgray", 169, 169, 169),
        25 => ("darkgreen", 0, 100, 0),
        26 => ("darkgrey", 169, 169, 169),
        27 => ("darkkhaki", 189, 183, 107),
        28 => ("darkmagenta", 139, 0, 139),
        29 => ("darkolivegreen", 85, 107, 47),
        30 => ("darkorange", 255, 140, 0),
        31 => ("darkorchid", 153, 50, 204),
        32 => ("darkred", 139, 0, 0),
        33 => ("darksalmon", 233, 150, 122),
        34 => ("darkseagreen", 143, 188, 143),
        35 => ("darkslateblue", 72, 61, 139),
        36 => ("darkslategray", 47, 79, 79),
        37 => ("darkslategrey", 47, 79, 79),
        38 => ("darkturquoise", 0, 206, 209),
        39 => ("darkviolet", 148, 0, 211),
        40 => ("deeppink", 255, 20, 147),
        41 => ("deepskyblue", 0, 191, 255),
        42 => ("dimgray", 105, 105, 105),
        43 => ("dimgrey", 105, 105, 105),
        44 => ("dodgerblue", 30, 144, 255),
        45 => ("firebrick", 178, 34, 34),
        46 => ("floralwhite", 255, 250, 240),
        47 => ("forestgreen", 34, 139, 34),
        48 => ("fuchsia", 255, 0, 255),
        49 => ("gainsboro", 220, 220, 220),
        50 => ("ghostwhite", 248, 248, 255),
        51 => ("gold", 255, 215, 0),
        52 => ("goldenrod", 218, 165, 32),
        53 => ("gray", 128, 128, 128),
        54 => ("green", 0, 128, 0),
        55 => ("greenyellow", 173, 255, 47),
        56 => ("grey", 128, 128, 128),
        57 => ("honeydew", 240, 255, 240),
        58 => ("hotpink", 255, 105, 180),
        59 => ("indianred", 205, 92, 92),
        60 => ("indigo", 75, 0, 130),
        61 => ("ivory", 255, 255, 240),
        62 => ("khaki", 240, 230, 140),
        63 => ("lavender", 230, 230, 250),
        64 => ("lavenderblush", 255, 240, 245),
        65 => ("lawngreen", 124, 252, 0),
        66 => ("lemonchiffon", 255, 250, 205),
        67 => ("lightblue", 173, 216, 230),
        68 => ("lightcoral", 240, 128, 128),
        69 => ("lightcyan", 224, 255, 255),
        70 => ("lightgoldenrodyellow", 250, 250, 210),
        71 => ("lightgray", 211, 211, 211),
        72 => ("lightgreen", 144, 238, 144),
        73 => ("lightgrey", 211, 211, 211),
        74 => ("lightpink", 255, 182, 193),
        75 => ("lightsalmon", 255, 160, 122),
        76 => ("lightseagreen", 32, 178, 170),
        77 => ("lightskyblue", 135, 206, 250),
        78 => ("lightslategray", 119, 136, 153),
        79 => ("lightslategrey", 119, 136, 153),
        80 => ("lightsteelblue", 176, 196, 222),
        81 => ("lightyellow", 255, 255, 224),
        82 => ("lime", 0, 255, 0),
        83 => ("limegreen", 50, 205, 50),
        84 => ("linen", 250, 240, 230),
        85 => ("magenta", 255, 0, 255),
        86 => ("maroon", 128, 0, 0),
        87 => ("mediumaquamarine", 102, 205, 170),
        88 => ("mediumblue", 0, 0, 205),
        89 => ("mediumorchid", 186, 85, 211),
        90 => ("mediumpurple", 147, 112, 219),
        91 => ("mediumseagreen", 60, 179, 113),
        92 => ("mediumslateblue", 123, 104, 238),
        93 => ("mediumspringgreen", 0, 250, 154),
        94 => ("mediumturquoise", 72, 209, 204),
        95 => ("mediumvioletred", 199, 21, 133),
        96 => ("midnightblue", 25, 25, 112),
        97 => ("mintcream", 245, 255, 250),
        98 => ("mistyrose", 255, 228, 225),
        99 => ("moccasin", 255, 228, 181),
        100 => ("navajowhite", 255, 222, 173),
        101 => ("navy", 0, 0, 128),
        102 => ("oldlace", 253, 245, 230),
        103 => ("olive", 128, 128, 0),
        104 => ("olivedrab", 107, 142, 35),
        105 => ("orange", 255, 165, 0),
        106 => ("orangered", 255, 69, 0),
        107 => ("orchid", 218, 112, 214),
        108 => ("palegoldenrod", 238, 232, 170),
        109 => ("palegreen", 152, 251, 152),
        110 => ("paleturquoise", 175, 238, 238),
        111 => ("palevioletred", 219, 112, 147),
        112 => ("papayawhip", 255, 239, 213),
        113 => ("peachpuff", 255, 218, 185),
        114 => ("peru", 205, 133, 63),
        115 => ("pink", 255, 192, 203),
        116 => ("plum", 221, 160, 221),
        117 => ("powderblue", 176, 224, 230),
        118 => ("purple", 128, 0, 128),
        119 => ("rebeccapurple", 102, 51, 153),
        120 => ("red", 255, 0, 0),
        121 => ("rosybrown", 188, 143, 143),
        122 => ("royalblue", 65, 105, 225),
        123 => ("saddlebrown", 139, 69, 19),
        124 => ("salmon", 250, 128, 114),
        125 => ("sandybrown", 244, 164, 96),
        126 => ("seagreen", 46, 139, 87),
        127 => ("seashell", 255, 245, 238),
        128 => ("sienna", 160, 82, 45),
        129 => ("silver", 192, 192, 192),
        130 => ("skyblue", 135, 206, 235),
        131 => ("slateblue", 106, 90, 205),
        132 => ("slategray", 112, 128, 144),
        133 => ("slategrey", 112, 128, 144),
        134 => ("snow", 255, 250, 250),
        135 => ("springgreen", 0, 255, 127),
        136 => ("steelblue", 70, 130, 180),
        137 => ("tan", 210, 180, 140),
        138 => ("teal", 0, 128, 128),
        139 => ("thistle", 216, 191, 216),
        140 => ("tomato", 255, 99, 71),
        141 => ("turquoise", 64, 224, 208),
        142 => ("violet", 238, 130, 238),
        143 => ("wheat", 245, 222, 179),
        144 => ("white", 255, 255, 255),
        145 => ("whitesmoke", 245, 245, 245),
        146 => ("yellow", 255, 255, 0),
        147 => ("yellowgreen", 154, 205, 50),
        _ => ("", 0, 0, 0),
    }
}

/// The first row at or after `i` whose name is `name` up to ASCII case.
pub open spec fn find_named(name: Seq<char>, i: int) -> Option<(u8, u8, u8)>
    decreases NAMED_COLOR_COUNT - i,
{
    if i < 0 || i >= NAMED_COLOR_COUNT {
        None
    } else if text::eq_ci(named_row(i).0, name) {
        Some((named_row(i).1, named_row(i).2, named_row(i).3))
    } else {
        find_named(name, i + 1)
    }
}

/// The channels of the color called `name`, in any ASCII case.
pub fn named_channels(name: &[char]) -> (r: Option<(u8, u8, u8)>)
    ensures
        r == find_named(name@, 0),
{
    let mut i: usize = 0;
    while i < NAMED_COLOR_COUNT
        invariant
            i <= NAMED_COLOR_COUNT,
            find_named(name@, i as int) == find_named(name@, 0),
        decreases NAMED_COLOR_COUNT - i,
    {
        let (candidate, red, green, blue) = row(i);
        if text::is_word_ci(name, candidate) {
            return Some((red, green, blue));
        }
        i = i + 1;
    }
    None
}

// ---------------------------------------------------------------------------
// Laws
// ---------------------------------------------------------------------------
/// A name stands for the channels of the first row that has it, in any case,
/// and for none where no row has it.
pub proof fn law_names_are_looked_up(name: Seq<char>, i: int, k: int)
    requires
        0 <= i <= k <= 148,
        forall|j: int| i <= j < k ==> !text::eq_ci((#[trigger] named_row(j)).0, name),
        k < 148 ==> text::eq_ci(named_row(k).0, name),
    ensures
        k < 148 ==> find_named(name, i) == Some((named_row(k).1, named_row(k).2, named_row(k).3)),
        k == 148 ==> find_named(name, i) is None,
    decreases k - i,
{
    if i < k {
        assert(!text::eq_ci(named_row(i).0, name));
        law_names_are_looked_up(name, i + 1, k);
    }
}

/// The named colors from `aliceblue` to `darkslategray`.
pub proof fn law_colors_from_aliceblue()
    ensures
        named_row(0) == ("aliceblue"@, 240u8, 248u8, 255u8),
        named_row(1) == ("antiquewhite"@, 250u8, 235u8, 215u8),
        named_row(2) == ("aqua"@, 0u8, 255u8, 255u8),
        named_row(3) == ("aquamarine"@, 127u8, 255u8, 212u8),
        named_row(4) == ("azure"@, 240u8, 255u8, 255u8),
        named_row(5) == ("beige"@, 245u8, 245u8, 220u8),
        named_row(6) == ("bisque"@, 255u8, 228u8, 196u8),
        named_row(7) == ("black"@, 0u8, 0u8, 0u8),
        named_row(8) == ("blanchedalmond"@, 255u8, 235u8, 205u8),
        named_row(9) == ("blue"@, 0u8, 0u8, 255u8),
        named_row(10) == ("blueviolet"@, 138u8, 43u8, 226u8),
        named_row(11) == ("brown"@, 165u8, 42u8, 42u8),
        named_row(12) == ("burlywood"@, 222u8, 184u8, 135u8),
        named_row(13) == ("cadetblue"@, 95u8, 158u8, 160u8),
        named_row(14) == ("chartreuse"@, 127u8, 255u8, 0u8),
        named_row(15) == ("chocolate"@, 210u8, 105u8, 30u8),
        named_row(16) == ("coral"@, 255u8, 127u8, 80u8),
        named_row(17) == ("cornflowerblue"@, 100u8, 149u8, 237u8),
        named_row(18) == ("cornsilk"@, 255u8, 248u8, 220u8),
        named_row(19) == ("crimson"@, 220u8, 20u8, 60u8),
        named_row(20) == ("cyan"@, 0u8, 255u8, 255u8),
        named_row(21) == ("darkblue"@, 0u8, 0u8, 139u8),
        named_row(22) == ("darkcyan"@, 0u8, 139u8, 139u8),
        named_row(23) == ("darkgoldenrod"@, 184u8, 134u8, 11u8),
        named_row(24) == ("darkgray"@, 169u8, 169u8, 169u8),
        named_row(25) == ("darkgreen"@, 0u8, 100u8, 0u8),
        named_row(26) == ("darkgrey"@, 169u8, 169u8, 169u8),
        named_row(27) == ("darkkhaki"@, 189u8, 183u8, 107u8),
        named_row(28) == ("darkmagenta"@, 139u8, 0u8, 139u8),
        named_row(29) == ("darkolivegreen"@, 85u8, 107u8, 47u8),
        named_row(30) == ("darkorange"@, 255u8, 140u8, 0u8),
        named_row(31) == ("darkorchid"@, 153u8, 50u8, 204u8),
        named_row(32) == ("darkred"@, 139u8, 0u8, 0u8),
        named_row(33) == ("darksalmon"@, 233u8, 150u8, 122u8),
        named_row(34) == ("darkseagreen"@, 143u8, 188u8, 143u8),
        named_row(35) == ("darkslateblue"@, 72u8, 61u8, 139u8),
        named_row(36) == ("darkslategray"@, 47u8, 79u8, 79u8),
{
}

/// The named colors from `darkslategrey` to `lightgrey`.
pub proof fn law_colors_from_darkslategrey()
    ensures
        named_row(37) == ("darkslategrey"@, 47u8, 79u8, 79u8),
        named_row(38) == ("darkturquoise"@, 0u8, 206u8, 209u8),
        named_row(39) == ("darkviolet"@, 148u8, 0u8, 211u8),
        named_row(40) == ("deeppink"@, 255u8, 20u8, 147u8),
        named_row(41) == ("deepskyblue"@, 0u8, 191u8, 255u8),
        named_row(42) == ("dimgray"@, 105u8, 105u8, 105u8),
        named_row(43) == ("dimgrey"@, 105u8, 105u8, 105u8),
        named_row(44) == ("dodgerblue"@, 30u8, 144u8, 255u8),
        named_row(45) == ("firebrick"@, 178u8, 34u8, 34u8),
        named_row(46) == ("floralwhite"@, 255u8, 250u8, 240u8),
        named_row(47) == ("forestgreen"@, 34u8, 139u8, 34u8),
        named_row(48) == ("fuchsia"@, 255u8, 0u8, 255u8),
        named_row(49) == ("gainsboro"@, 220u8, 220u8, 220u8),
        named_row(50) == ("ghostwhite"@, 248u8, 248u8, 255u8),
        named_row(51) == ("gold"@, 255u8, 215u8, 0u8),
        named_row(52) == ("goldenrod"@, 218u8, 165u8, 32u8),
        named_row(53) == ("gray"@, 128u8, 128u8, 128u8),
        named_row(54) == ("green"@, 0u8, 128u8, 0u8),
        named_row(55) == ("greenyellow"@, 173u8, 255u8, 47u8),
        named_row(56) == ("grey"@, 128u8, 128u8, 128u8),
        named_row(57) == ("honeydew"@, 240u8, 255u8, 240u8),
        named_row(58) == ("hotpink"@, 255u8, 105u8, 180u8),
        named_row(59) == ("indianred"@, 205u8, 92u8, 92u8),
        named_row(60) == ("indigo"@, 75u8, 0u8, 130u8),
        named_row(61) == ("ivory"@, 255u8, 255u8, 240u8),
        named_row(62) == ("khaki"@, 240u8, 230u8, 140u8),
        named_row(63) == ("lavender"@, 230u8, 230u8, 250u8),
        named_row(64) == ("lavenderblush"@, 255u8, 240u8, 245u8),
        named_row(65) == ("lawngreen"@, 124u8, 252u8, 0u8),
        named_row(66) == ("lemonchiffon"@, 255u8, 250u8, 205u8),
        named_row(67) == ("lightblue"@, 173u8, 216u8, 230u8),
        named_row(68) == ("lightcoral"@, 240u8, 128u8, 128u8),
        named_row(69) == ("lightcyan"@, 224u8, 255u8, 255u8),
        named_row(70) == ("lightgoldenrodyellow"@, 250u8, 250u8, 210u8),
        named_row(71) == ("lightgray"@, 211u8, 211u8, 211u8),
        named_row(72) == ("lightgreen"@, 144u8, 238u8, 144u8),
        named_row(73) == ("lightgrey"@, 211u8, 211u8, 211u8),
{
}

/// The named colors from `lightpink` to `paleturquoise`.
pub proof fn law_colors_from_lightpink()
    ensures
        named_row(74) == ("lightpink"@, 255u8, 182u8, 193u8),
        named_row(75) == ("lightsalmon"@, 255u8, 160u8, 122u8),
        named_row(76) == ("lightseagreen"@, 32u8, 178u8, 170u8),
        named_row(77) == ("lightskyblue"@, 135u8, 206u8, 250u8),
        named_row(78) == ("lightslategray"@, 119u8, 136u8, 153u8),
        named_row(79) == ("lightslategrey"@, 119u8, 136u8, 153u8),
        named_row(80) == ("lightsteelblue"@, 176u8, 196u8, 222u8),
        named_row(81) == ("lightyellow"@, 255u8, 255u8, 224u8),
        named_row(82) == ("lime"@, 0u8, 255u8, 0u8),
        named_row(83) == ("limegreen"@, 50u8, 205u8, 50u8),
        named_row(84) == ("linen"@, 250u8, 240u8, 230u8),
        named_row(85) == ("magenta"@, 255u8, 0u8, 255u8),
        named_row(86) == ("maroon"@, 128u8, 0u8, 0u8),
        named_row(87) == ("mediumaquamarine"@, 102u8, 205u8, 170u8),
        named_row(88) == ("mediumblue"@, 0u8, 0u8, 205u8),
        named_row(89) == ("mediumorchid"@, 186u8, 85u8, 211u8),
        named_row(90) == ("mediumpurple"@, 147u8, 112u8, 219u8),
        named_row(91) == ("mediumseagreen"@, 60u8, 179u8, 113u8),
        named_row(92) == ("mediumslateblue"@, 123u8, 104u8, 238u8),
        named_row(93) == ("mediumspringgreen"@, 0u8, 250u8, 154u8),
        named_row(94) == ("mediumturquoise"@, 72u8, 209u8, 204u8),
        named_row(95) == ("mediumvioletred"@, 199u8, 21u8, 133u8),
        named_row(96) == ("midnightblue"@, 25u8, 25u8, 112u8),
        named_row(97) == ("mintcream"@, 245u8, 255u8, 250u8),
        named_row(98) == ("mistyrose"@, 255u8, 228u8, 225u8),
        named_row(99) == ("moccasin"@, 255u8, 228u8, 181u8),
        named_row(100) == ("navajowhite"@, 255u8, 222u8, 173u8),
        named_row(101) == ("navy"@, 0u8, 0u8, 128u8),
        named_row(102) == ("oldlace"@, 253u8, 245u8, 230u8),
        named_row(103) == ("olive"@, 128u8, 128u8, 0u8),
        named_row(104) == ("olivedrab"@, 107u8, 142u8, 35u8),
        named_row(105) == ("orange"@, 255u8, 165u8, 0u8),
        named_row(106) == ("orangered"@, 255u8, 69u8, 0u8),
        named_row(107) == ("orchid"@, 218u8, 112u8, 214u8),
        named_row(108) == ("palegoldenrod"@, 238u8, 232u8, 170u8),
        named_row(109) == ("palegreen"@, 152u8, 251u8, 152u8),
        named_row(110) == ("paleturquoise"@, 175u8, 238u8, 238u8),
{
}

/// The named colors from `palevioletred` to `yellowgreen`.
pub proof fn law_colors_from_palevioletred()
    ensures
        named_row(111) == ("palevioletred"@, 219u8, 112u8, 147u8),
        named_row(112) == ("papayawhip"@, 255u8, 239u8, 213u8),
        named_row(113) == ("peachpuff"@, 255u8, 218u8, 185u8),
        named_row(114) == ("peru"@, 205u8, 133u8, 63u8),
        named_row(115) == ("pink"@, 255u8, 192u8, 203u8),
        named_row(116) == ("plum"@, 221u8, 160u8, 221u8),
        named_row(117) == ("powderblue"@, 176u8, 224u8, 230u8),
        named_row(118) == ("purple"@, 128u8, 0u8, 128u8),
        named_row(119) == ("rebeccapurple"@, 102u8, 51u8, 153u8),
        named_row(120) == ("red"@, 255u8, 0u8, 0u8),
        named_row(121) == ("rosybrown"@, 188u8, 143u8, 143u8),
        named_row(122) == ("royalblue"@, 65u8, 105u8, 225u8),
        named_row(123) == ("saddlebrown"@, 139u8, 69u8, 19u8),
        named_row(124) == ("salmon"@, 250u8, 128u8, 114u8),
        named_row(125) == ("sandybrown"@, 244u8, 164u8, 96u8),
        named_row(126) == ("seagreen"@, 46u8, 139u8, 87u8),
        named_row(127) == ("seashell"@, 255u8, 245u8, 238u8),
        named_row(128) == ("sienna"@, 160u8, 82u8, 45u8),
        named_row(129) == ("silver"@, 192u8, 192u8, 192u8),
        named_row(130) == ("skyblue"@, 135u8, 206u8, 235u8),
        named_row(131) == ("slateblue"@, 106u8, 90u8, 205u8),
        named_row(132) == ("slategray"@, 112u8, 128u8, 144u8),
        named_row(133) == ("slategrey"@, 112u8, 128u8, 144u8),
        named_row(134) == ("snow"@, 255u8, 250u8, 250u8),
        named_row(135) == ("springgreen"@, 0u8, 255u8, 127u8),
        named_row(136) == ("steelblue"@, 70u8, 130u8, 180u8),
        named_row(137) == ("tan"@, 210u8, 180u8, 140u8),
        named_row(138) == ("teal"@, 0u8, 128u8, 128u8),
        named_row(139) == ("thistle"@, 216u8, 191u8, 216u8),
        named_row(140) == ("tomato"@, 255u8, 99u8, 71u8),
        named_row(141) == ("turquoise"@, 64u8, 224u8, 208u8),
        named_row(142) == ("violet"@, 238u8, 130u8, 238u8),
        named_row(143) == ("wheat"@, 245u8, 222u8, 179u8),
        named_row(144) == ("white"@, 255u8, 255u8, 255u8),
        named_row(145) == ("whitesmoke"@, 245u8, 245u8, 245u8),
        named_row(146) == ("yellow"@, 255u8, 255u8, 0u8),
        named_row(147) == ("yellowgreen"@, 154u8, 205u8, 50u8),
{
}

} // verus!
