use vstd::prelude::*;
use crate::chars::{ascii_lower, digit_value, is_alnum, is_digit, is_upper, lower_char};

verus! {

/// The longest color name that the table holds.
pub const MAX_NAME_LEN: usize = 17;

/// The digit of one lowercase alphanumeric character in the name code:
/// `0`..`9` are 1..10 and `a`..`z` are 11..36.
pub open spec fn name_char_code(c: char) -> int {
    if is_digit(c) {
        digit_value(c) + 1
    } else {
        (c as int) - ('a' as int) + 11
    }
}

/// A bijective base-37 code of a lowercase alphanumeric name.
pub open spec fn name_code(s: Seq<char>) -> int
    decreases s.len(),
{
    if s.len() == 0 {
        0
    } else {
        name_code(s.drop_last()) * 37 + name_char_code(s.last())
    }
}

/// The palette index of each named color, keyed by the code of the name.
pub open spec fn palette_index_of_code(code: u128) -> Option<u8> {
    match code {
        595304u128 => Some(14u8), // aqua
        56513386012746694u128 => Some(79u8), // aquamarine1
        56513386012746695u128 => Some(86u8), // aquamarine2
        56513386012746696u128 => Some(122u8), // aquamarine3
        23619859u128 => Some(0u8), // black
        639116u128 => Some(12u8), // blue
        23647294u128 => Some(19u8), // blue1
        23647295u128 => Some(20u8), // blue2
        23647296u128 => Some(21u8), // blue3
        1639799055527155u128 => Some(57u8), // blueviolet
        1729509527471133u128 => Some(72u8), // cadetblue1
        1729509527471134u128 => Some(73u8), // cadetblue2
        64892282467442260u128 => Some(64u8), // chartreuse1
        64892282467442261u128 => Some(70u8), // chartreuse2
        64892282467442262u128 => Some(76u8), // chartreuse3
        64892282467442263u128 => Some(82u8), // chartreuse4
        64892282467442264u128 => Some(112u8), // chartreuse5
        64892282467442265u128 => Some(118u8), // chartreuse6
        3336072973511264654421u128 => Some(69u8), // cornflowerblue
        1300245669397u128 => Some(230u8), // cornsilk
        26152897u128 => Some(43u8), // cyan1
        26152898u128 => Some(50u8), // cyan2
        26152899u128 => Some(51u8), // cyan3
        1359250897654u128 => Some(18u8), // darkblue
        1359250965373u128 => Some(36u8), // darkcyan
        94255853623191763602u128 => Some(136u8), // darkgoldenrod
        50292292866041u128 => Some(22u8), // darkgreen
        50292299850896u128 => Some(143u8), // darkkhaki
        2547456036656218011u128 => Some(90u8), // darkmagenta1
        2547456036656218012u128 => Some(91u8), // darkmagenta2
        129036301680110133843360u128 => Some(107u8), // darkolivegreen1
        129036301680110133843361u128 => Some(113u8), // darkolivegreen2
        129036301680110133843362u128 => Some(149u8), // darkolivegreen3
        129036301680110133843363u128 => Some(155u8), // darkolivegreen4
        129036301680110133843364u128 => Some(191u8), // darkolivegreen5
        129036301680110133843365u128 => Some(192u8), // darkolivegreen6
        68850169452371608u128 => Some(130u8), // darkorange1
        68850169452371609u128 => Some(166u8), // darkorange2
        68850169452371610u128 => Some(208u8), // darkorange3
        1359251697877u128 => Some(52u8), // darkred1
        1359251697878u128 => Some(88u8), // darkred2
        94255894795635371066u128 => Some(65u8), // darkseagreen1
        94255894795635371067u128 => Some(71u8), // darkseagreen2
        94255894795635371068u128 => Some(150u8), // darkseagreen3
        94255894795635371069u128 => Some(115u8), // darkseagreen4
        94255894795635371070u128 => Some(151u8), // darkseagreen5
        94255894795635371071u128 => Some(157u8), // darkseagreen6
        94255894795635371072u128 => Some(158u8), // darkseagreen7
        94255894795635371073u128 => Some(193u8), // darkseagreen8
        3487468132058322269002u128 => Some(87u8), // darkslategray1
        3487468132058322269003u128 => Some(116u8), // darkslategray2
        3487468132058322269004u128 => Some(123u8), // darkslategray3
        94255899871341782325u128 => Some(44u8), // darkturquoise
        68850186814495623u128 => Some(92u8), // darkviolet1
        68850186814495624u128 => Some(128u8), // darkviolet2
        50639029075134u128 => Some(53u8), // deeppink1
        50639029075135u128 => Some(89u8), // deeppink2
        50639029075136u128 => Some(125u8), // deeppink3
        50639029075137u128 => Some(161u8), // deeppink4
        50639029075138u128 => Some(162u8), // deeppink5
        50639029075139u128 => Some(197u8), // deeppink6
        50639029075140u128 => Some(198u8), // deeppink7
        50639029075141u128 => Some(199u8), // deeppink8
        2565019030416818853u128 => Some(23u8), // deepskyblue1
        2565019030416818854u128 => Some(24u8), // deepskyblue2
        2565019030416818855u128 => Some(25u8), // deepskyblue3
        2565019030416818856u128 => Some(31u8), // deepskyblue4
        2565019030416818857u128 => Some(32u8), // deepskyblue5
        2565019030416818858u128 => Some(38u8), // deepskyblue6
        2565019030416818859u128 => Some(39u8), // deepskyblue7
        70620053714167191u128 => Some(26u8), // dodgerblue1
        70620053714167192u128 => Some(27u8), // dodgerblue2
        70620053714167193u128 => Some(33u8), // dodgerblue3
        43226601473u128 => Some(13u8), // fuchsia
        33157700u128 => Some(142u8), // gold1
        33157701u128 => Some(178u8), // gold2
        33157702u128 => Some(220u8), // gold3
        899875u128 => Some(8u8), // gray
        33295376u128 => Some(16u8), // gray0
        45581371151u128 => Some(231u8), // gray100
        1231928951u128 => Some(234u8), // gray11
        1231928955u128 => Some(235u8), // gray15
        1231928959u128 => Some(236u8), // gray19
        1231928990u128 => Some(237u8), // gray23
        1231928994u128 => Some(238u8), // gray27
        33295379u128 => Some(232u8), // gray3
        1231929024u128 => Some(239u8), // gray30
        1231929029u128 => Some(240u8), // gray35
        1231929031u128 => Some(59u8), // gray37
        1231929033u128 => Some(241u8), // gray39
        1231929063u128 => Some(242u8), // gray42
        1231929067u128 => Some(243u8), // gray46
        1231929098u128 => Some(244u8), // gray50
        1231929101u128 => Some(102u8), // gray53
        1231929102u128 => Some(245u8), // gray54
        1231929106u128 => Some(246u8), // gray58
        1231929137u128 => Some(247u8), // gray62
        1231929138u128 => Some(139u8), // gray63
        1231929141u128 => Some(248u8), // gray66
        1231929144u128 => Some(145u8), // gray69
        33295383u128 => Some(233u8), // gray7
        1231929172u128 => Some(249u8), // gray70
        1231929176u128 => Some(250u8), // gray74
        1231929180u128 => Some(251u8), // gray78
        1231929211u128 => Some(252u8), // gray82
        1231929213u128 => Some(188u8), // gray84
        1231929214u128 => Some(253u8), // gray85
        1231929218u128 => Some(254u8), // gray89
        1231929249u128 => Some(255u8), // gray93
        33300135u128 => Some(2u8), // green
        1232104997u128 => Some(28u8), // green1
        1232104998u128 => Some(34u8), // green2
        1232104999u128 => Some(40u8), // green3
        1232105000u128 => Some(46u8), // green4
        85439038249061567u128 => Some(154u8), // greenyellow
        1774611108611u128 => Some(194u8), // honeydew
        1775046991557u128 => Some(132u8), // hotpink1
        1775046991558u128 => Some(168u8), // hotpink2
        1775046991559u128 => Some(169u8), // hotpink3
        1775046991561u128 => Some(205u8), // hotpink5
        1775046991562u128 => Some(206u8), // hotpink6
        2554951167284930u128 => Some(131u8), // indianred1
        2554951167284931u128 => Some(167u8), // indianred2
        2554951167284932u128 => Some(203u8), // indianred3
        2554951167284933u128 => Some(204u8), // indianred4
        1490544632u128 => Some(185u8), // khaki1
        1490544633u128 => Some(228u8), // khaki2
        2927557516090705u128 => Some(210u8), // lightcoral
        2927557516574423u128 => Some(152u8), // lightcyan1
        2927557516574424u128 => Some(195u8), // lightcyan2
        203008423030105281741616u128 => Some(179u8), // lightgoldenrod1
        203008423030105281741617u128 => Some(186u8), // lightgoldenrod2
        203008423030105281741618u128 => Some(221u8), // lightgoldenrod3
        203008423030105281741619u128 => Some(222u8), // lightgoldenrod4
        203008423030105281741620u128 => Some(227u8), // lightgoldenrod5
        108319628377701459u128 => Some(119u8), // lightgreen1
        108319628377701460u128 => Some(120u8), // lightgreen2
        2927557540145754u128 => Some(95u8), // lightpink1
        2927557540145755u128 => Some(174u8), // lightpink2
        2927557540145756u128 => Some(217u8), // lightpink3
        4007826279598350158u128 => Some(137u8), // lightsalmon1
        4007826279598350159u128 => Some(173u8), // lightsalmon2
        4007826279598350160u128 => Some(216u8), // lightsalmon3
        148289572354627973132u128 => Some(37u8), // lightseagreen
        148289572371676933713u128 => Some(109u8), // lightskyblue1
        148289572371676933714u128 => Some(110u8), // lightskyblue2
        148289572371676933715u128 => Some(153u8), // lightskyblue3
        5486714177786635111061u128 => Some(105u8), // lightslateblue
        5486714177786635371968u128 => Some(103u8), // lightslategrey
        203008424606547061760723u128 => Some(146u8), // lightsteelblue1
        203008424606547061760724u128 => Some(147u8), // lightsteelblue2
        203008424606547061760725u128 => Some(189u8), // lightsteelblue3
        108319629601892814u128 => Some(187u8), // lightyellow
        1141243u128 => Some(10u8), // lime
        2212864381393u128 => Some(127u8), // magenta1
        2212864381394u128 => Some(163u8), // magenta2
        2212864381395u128 => Some(164u8), // magenta3
        2212864381396u128 => Some(165u8), // magenta4
        2212864381397u128 => Some(200u8), // magenta5
        2212864381398u128 => Some(201u8), // magenta6
        1616980240u128 => Some(1u8), // maroon
        154146561051689013016u128 => Some(133u8), // mediumorchid1
        154146561051689013017u128 => Some(134u8), // mediumorchid2
        154146561051689013018u128 => Some(171u8), // mediumorchid3
        154146561051689013019u128 => Some(207u8), // mediumorchid4
        154146561054491293079u128 => Some(60u8), // mediumpurple1
        154146561054491293080u128 => Some(97u8), // mediumpurple2
        154146561054491293081u128 => Some(98u8), // mediumpurple3
        154146561054491293082u128 => Some(104u8), // mediumpurple4
        154146561054491293083u128 => Some(135u8), // mediumpurple5
        154146561054491293084u128 => Some(140u8), // mediumpurple6
        154146561054491293085u128 => Some(141u8), // mediumpurple7
        288895473026221741523062495u128 => Some(49u8), // mediumspringgreen
        211026642097648584783132u128 => Some(80u8), // mediumturquoise
        211026642103526287544857u128 => Some(126u8), // mediumvioletred
        3058689601961983u128 => Some(181u8), // mistyrose1
        3058689601961984u128 => Some(224u8), // mistyrose2
        4327116728854874244u128 => Some(144u8), // navajowhite1
        4327116728854874245u128 => Some(223u8), // navajowhite2
        1231950u128 => Some(4u8), // navy
        2308873283066u128 => Some(17u8), // navyblue
        47995601u128 => Some(3u8), // olive
        66106646294u128 => Some(58u8), // orange1
        66106646295u128 => Some(94u8), // orange2
        66106646296u128 => Some(172u8), // orange3
        66106646297u128 => Some(214u8), // orange4
        90499998812649u128 => Some(202u8), // orangered
        66110093399u128 => Some(170u8), // orchid1
        66110093400u128 => Some(212u8), // orchid2
        66110093401u128 => Some(213u8), // orchid3
        3419770727963191u128 => Some(77u8), // palegreen1
        3419770727963192u128 => Some(114u8), // palegreen2
        3419770727963193u128 => Some(121u8), // palegreen3
        3419770727963194u128 => Some(156u8), // palegreen4
        6409202628595710341219u128 => Some(66u8), // paleturquoise1
        6409202628595710341220u128 => Some(159u8), // paleturquoise2
        173221698542451689866u128 => Some(211u8), // palevioletred
        49724228u128 => Some(175u8), // pink1
        49724229u128 => Some(218u8), // pink2
        1348266u128 => Some(96u8), // plum
        49885845u128 => Some(176u8), // plum2
        49885846u128 => Some(183u8), // plum3
        49885847u128 => Some(219u8), // plum4
        1862496580u128 => Some(5u8), // purple
        68912373462u128 => Some(54u8), // purple1
        68912373463u128 => Some(55u8), // purple2
        68912373464u128 => Some(56u8), // purple3
        68912373465u128 => Some(93u8), // purple4
        68912373466u128 => Some(129u8), // purple5
        38901u128 => Some(9u8), // red
        1439339u128 => Some(124u8), // red1
        1439340u128 => Some(160u8), // red2
        1439341u128 => Some(196u8), // red3
        100799578686155u128 => Some(138u8), // rosybrown
        100813326716613u128 => Some(63u8), // royalblue
        2032737326u128 => Some(209u8), // salmon
        3809844464253463u128 => Some(215u8), // sandybrown
        103315337416200u128 => Some(78u8), // seagreen1
        103315337416201u128 => Some(83u8), // seagreen2
        103315337416202u128 => Some(84u8), // seagreen3
        103315337416203u128 => Some(85u8), // seagreen4
        2047742569u128 => Some(7u8), // silver
        2809355377235u128 => Some(74u8), // skyblue1
        2809355377236u128 => Some(111u8), // skyblue2
        2809355377237u128 => Some(117u8), // skyblue3
        3847287288290877u128 => Some(61u8), // slateblue1
        3847287288290878u128 => Some(62u8), // slateblue2
        3847287288290879u128 => Some(99u8), // slateblue3
        5288342214325607848u128 => Some(29u8), // springgreen1
        5288342214325607849u128 => Some(35u8), // springgreen2
        5288342214325607850u128 => Some(41u8), // springgreen3
        5288342214325607851u128 => Some(42u8), // springgreen4
        5288342214325607852u128 => Some(47u8), // springgreen5
        5288342214325607853u128 => Some(48u8), // springgreen6
        3875728850942341u128 => Some(67u8), // steelblue1
        3875728850942342u128 => Some(68u8), // steelblue2
        3875728850942343u128 => Some(75u8), // steelblue3
        3875728850942344u128 => Some(81u8), // steelblue4
        41501u128 => Some(180u8), // tan
        1540554u128 => Some(6u8), // teal
        2895512825469u128 => Some(182u8), // thistle1
        2895512825470u128 => Some(225u8), // thistle2
        4010468621615985u128 => Some(30u8), // turquoise1
        4010468621615986u128 => Some(45u8), // turquoise2
        2255912711u128 => Some(177u8), // violet
        2322861445u128 => Some(101u8), // wheat1
        2322861446u128 => Some(229u8), // wheat2
        62786203u128 => Some(15u8), // white
        2456296352u128 => Some(11u8), // yellow
        90882965026u128 => Some(100u8), // yellow1
        90882965027u128 => Some(106u8), // yellow2
        90882965028u128 => Some(148u8), // yellow3
        90882965029u128 => Some(184u8), // yellow4
        90882965030u128 => Some(190u8), // yellow5
        90882965031u128 => Some(226u8), // yellow6
        _ => None,
    }
}

/// The 256-color palette index of a color name, compared case-insensitively.
pub open spec fn named_color(name: Seq<char>) -> Option<u8> {
    let lower = ascii_lower(name);
    if name.len() <= MAX_NAME_LEN && forall|i: int| 0 <= i < lower.len() ==> #[trigger] is_alnum(lower[i]) {
        palette_index_of_code(name_code(lower) as u128)
    } else {
        None
    }
}

fn index_of_code(code: u128) -> (r: Option<u8>)
    ensures
        r == palette_index_of_code(code),
{
    match code {
        595304u128 => Some(14u8), // aqua
        56513386012746694u128 => Some(79u8), // aquamarine1
        56513386012746695u128 => Some(86u8), // aquamarine2
        56513386012746696u128 => Some(122u8), // aquamarine3
        23619859u128 => Some(0u8), // black
        639116u128 => Some(12u8), // blue
        23647294u128 => Some(19u8), // blue1
        23647295u128 => Some(20u8), // blue2
        23647296u128 => Some(21u8), // blue3
        1639799055527155u128 => Some(57u8), // blueviolet
        1729509527471133u128 => Some(72u8), // cadetblue1
        1729509527471134u128 => Some(73u8), // cadetblue2
        64892282467442260u128 => Some(64u8), // chartreuse1
        64892282467442261u128 => Some(70u8), // chartreuse2
        64892282467442262u128 => Some(76u8), // chartreuse3
        64892282467442263u128 => Some(82u8), // chartreuse4
        64892282467442264u128 => Some(112u8), // chartreuse5
        64892282467442265u128 => Some(118u8), // chartreuse6
        3336072973511264654421u128 => Some(69u8), // cornflowerblue
        1300245669397u128 => Some(230u8), // cornsilk
        26152897u128 => Some(43u8), // cyan1
        26152898u128 => Some(50u8), // cyan2
        26152899u128 => Some(51u8), // cyan3
        1359250897654u128 => Some(18u8), // darkblue
        1359250965373u128 => Some(36u8), // darkcyan
        94255853623191763602u128 => Some(136u8), // darkgoldenrod
        50292292866041u128 => Some(22u8), // darkgreen
        50292299850896u128 => Some(143u8), // darkkhaki
        2547456036656218011u128 => Some(90u8), // darkmagenta1
        2547456036656218012u128 => Some(91u8), // darkmagenta2
        129036301680110133843360u128 => Some(107u8), // darkolivegreen1
        129036301680110133843361u128 => Some(113u8), // darkolivegreen2
        129036301680110133843362u128 => Some(149u8), // darkolivegreen3
        129036301680110133843363u128 => Some(155u8), // darkolivegreen4
        129036301680110133843364u128 => Some(191u8), // darkolivegreen5
        129036301680110133843365u128 => Some(192u8), // darkolivegreen6
        68850169452371608u128 => Some(130u8), // darkorange1
        68850169452371609u128 => Some(166u8), // darkorange2
        68850169452371610u128 => Some(208u8), // darkorange3
        1359251697877u128 => Some(52u8), // darkred1
        1359251697878u128 => Some(88u8), // darkred2
        94255894795635371066u128 => Some(65u8), // darkseagreen1
        94255894795635371067u128 => Some(71u8), // darkseagreen2
        94255894795635371068u128 => Some(150u8), // darkseagreen3
        94255894795635371069u128 => Some(115u8), // darkseagreen4
        94255894795635371070u128 => Some(151u8), // darkseagreen5
        94255894795635371071u128 => Some(157u8), // darkseagreen6
        94255894795635371072u128 => Some(158u8), // darkseagreen7
        94255894795635371073u128 => Some(193u8), // darkseagreen8
        3487468132058322269002u128 => Some(87u8), // darkslategray1
        3487468132058322269003u128 => Some(116u8), // darkslategray2
        3487468132058322269004u128 => Some(123u8), // darkslategray3
        94255899871341782325u128 => Some(44u8), // darkturquoise
        68850186814495623u128 => Some(92u8), // darkviolet1
        68850186814495624u128 => Some(128u8), // darkviolet2
        50639029075134u128 => Some(53u8), // deeppink1
        50639029075135u128 => Some(89u8), // deeppink2
        50639029075136u128 => Some(125u8), // deeppink3
        50639029075137u128 => Some(161u8), // deeppink4
        50639029075138u128 => Some(162u8), // deeppink5
        50639029075139u128 => Some(197u8), // deeppink6
        50639029075140u128 => Some(198u8), // deeppink7
        50639029075141u128 => Some(199u8), // deeppink8
        2565019030416818853u128 => Some(23u8), // deepskyblue1
        2565019030416818854u128 => Some(24u8), // deepskyblue2
        2565019030416818855u128 => Some(25u8), // deepskyblue3
        2565019030416818856u128 => Some(31u8), // deepskyblue4
        2565019030416818857u128 => Some(32u8), // deepskyblue5
        2565019030416818858u128 => Some(38u8), // deepskyblue6
        2565019030416818859u128 => Some(39u8), // deepskyblue7
        70620053714167191u128 => Some(26u8), // dodgerblue1
        70620053714167192u128 => Some(27u8), // dodgerblue2
        70620053714167193u128 => Some(33u8), // dodgerblue3
        43226601473u128 => Some(13u8), // fuchsia
        33157700u128 => Some(142u8), // gold1
        33157701u128 => Some(178u8), // gold2
        33157702u128 => Some(220u8), // gold3
        899875u128 => Some(8u8), // gray
        33295376u128 => Some(16u8), // gray0
        45581371151u128 => Some(231u8), // gray100
        1231928951u128 => Some(234u8), // gray11
        1231928955u128 => Some(235u8), // gray15
        1231928959u128 => Some(236u8), // gray19
        1231928990u128 => Some(237u8), // gray23
        1231928994u128 => Some(238u8), // gray27
        33295379u128 => Some(232u8), // gray3
        1231929024u128 => Some(239u8), // gray30
        1231929029u128 => Some(240u8), // gray35
        1231929031u128 => Some(59u8), // gray37
        1231929033u128 => Some(241u8), // gray39
        1231929063u128 => Some(242u8), // gray42
        1231929067u128 => Some(243u8), // gray46
        1231929098u128 => Some(244u8), // gray50
        1231929101u128 => Some(102u8), // gray53
        1231929102u128 => Some(245u8), // gray54
        1231929106u128 => Some(246u8), // gray58
        1231929137u128 => Some(247u8), // gray62
        1231929138u128 => Some(139u8), // gray63
        1231929141u128 => Some(248u8), // gray66
        1231929144u128 => Some(145u8), // gray69
        33295383u128 => Some(233u8), // gray7
        1231929172u128 => Some(249u8), // gray70
        1231929176u128 => Some(250u8), // gray74
        1231929180u128 => Some(251u8), // gray78
        1231929211u128 => Some(252u8), // gray82
        1231929213u128 => Some(188u8), // gray84
        1231929214u128 => Some(253u8), // gray85
        1231929218u128 => Some(254u8), // gray89
        1231929249u128 => Some(255u8), // gray93
        33300135u128 => Some(2u8), // green
        1232104997u128 => Some(28u8), // green1
        1232104998u128 => Some(34u8), // green2
        1232104999u128 => Some(40u8), // green3
        1232105000u128 => Some(46u8), // green4
        85439038249061567u128 => Some(154u8), // greenyellow
        1774611108611u128 => Some(194u8), // honeydew
        1775046991557u128 => Some(132u8), // hotpink1
        1775046991558u128 => Some(168u8), // hotpink2
        1775046991559u128 => Some(169u8), // hotpink3
        1775046991561u128 => Some(205u8), // hotpink5
        1775046991562u128 => Some(206u8), // hotpink6
        2554951167284930u128 => Some(131u8), // indianred1
        2554951167284931u128 => Some(167u8), // indianred2
        2554951167284932u128 => Some(203u8), // indianred3
        2554951167284933u128 => Some(204u8), // indianred4
        1490544632u128 => Some(185u8), // khaki1
        1490544633u128 => Some(228u8), // khaki2
        2927557516090705u128 => Some(210u8), // lightcoral
        2927557516574423u128 => Some(152u8), // lightcyan1
        2927557516574424u128 => Some(195u8), // lightcyan2
        203008423030105281741616u128 => Some(179u8), // lightgoldenrod1
        203008423030105281741617u128 => Some(186u8), // lightgoldenrod2
        203008423030105281741618u128 => Some(221u8), // lightgoldenrod3
        203008423030105281741619u128 => Some(222u8), // lightgoldenrod4
        203008423030105281741620u128 => Some(227u8), // lightgoldenrod5
        108319628377701459u128 => Some(119u8), // lightgreen1
        108319628377701460u128 => Some(120u8), // lightgreen2
        2927557540145754u128 => Some(95u8), // lightpink1
        2927557540145755u128 => Some(174u8), // lightpink2
        2927557540145756u128 => Some(217u8), // lightpink3
        4007826279598350158u128 => Some(137u8), // lightsalmon1
        4007826279598350159u128 => Some(173u8), // lightsalmon2
        4007826279598350160u128 => Some(216u8), // lightsalmon3
        148289572354627973132u128 => Some(37u8), // lightseagreen
        148289572371676933713u128 => Some(109u8), // lightskyblue1
        148289572371676933714u128 => Some(110u8), // lightskyblue2
        148289572371676933715u128 => Some(153u8), // lightskyblue3
        5486714177786635111061u128 => Some(105u8), // lightslateblue
        5486714177786635371968u128 => Some(103u8), // lightslategrey
        203008424606547061760723u128 => Some(146u8), // lightsteelblue1
        203008424606547061760724u128 => Some(147u8), // lightsteelblue2
        203008424606547061760725u128 => Some(189u8), // lightsteelblue3
        108319629601892814u128 => Some(187u8), // lightyellow
        1141243u128 => Some(10u8), // lime
        2212864381393u128 => Some(127u8), // magenta1
        2212864381394u128 => Some(163u8), // magenta2
        2212864381395u128 => Some(164u8), // magenta3
        2212864381396u128 => Some(165u8), // magenta4
        2212864381397u128 => Some(200u8), // magenta5
        2212864381398u128 => Some(201u8), // magenta6
        1616980240u128 => Some(1u8), // maroon
        154146561051689013016u128 => Some(133u8), // mediumorchid1
        154146561051689013017u128 => Some(134u8), // mediumorchid2
        154146561051689013018u128 => Some(171u8), // mediumorchid3
        154146561051689013019u128 => Some(207u8), // mediumorchid4
        154146561054491293079u128 => Some(60u8), // mediumpurple1
        154146561054491293080u128 => Some(97u8), // mediumpurple2
        154146561054491293081u128 => Some(98u8), // mediumpurple3
        154146561054491293082u128 => Some(104u8), // mediumpurple4
        154146561054491293083u128 => Some(135u8), // mediumpurple5
        154146561054491293084u128 => Some(140u8), // mediumpurple6
        154146561054491293085u128 => Some(141u8), // mediumpurple7
        288895473026221741523062495u128 => Some(49u8), // mediumspringgreen
        211026642097648584783132u128 => Some(80u8), // mediumturquoise
        211026642103526287544857u128 => Some(126u8), // mediumvioletred
        3058689601961983u128 => Some(181u8), // mistyrose1
        3058689601961984u128 => Some(224u8), // mistyrose2
        4327116728854874244u128 => Some(144u8), // navajowhite1
        4327116728854874245u128 => Some(223u8), // navajowhite2
        1231950u128 => Some(4u8), // navy
        2308873283066u128 => Some(17u8), // navyblue
        47995601u128 => Some(3u8), // olive
        66106646294u128 => Some(58u8), // orange1
        66106646295u128 => Some(94u8), // orange2
        66106646296u128 => Some(172u8), // orange3
        66106646297u128 => Some(214u8), // orange4
        90499998812649u128 => Some(202u8), // orangered
        66110093399u128 => Some(170u8), // orchid1
        66110093400u128 => Some(212u8), // orchid2
        66110093401u128 => Some(213u8), // orchid3
        3419770727963191u128 => Some(77u8), // palegreen1
        3419770727963192u128 => Some(114u8), // palegreen2
        3419770727963193u128 => Some(121u8), // palegreen3
        3419770727963194u128 => Some(156u8), // palegreen4
        6409202628595710341219u128 => Some(66u8), // paleturquoise1
        6409202628595710341220u128 => Some(159u8), // paleturquoise2
        173221698542451689866u128 => Some(211u8), // palevioletred
        49724228u128 => Some(175u8), // pink1
        49724229u128 => Some(218u8), // pink2
        1348266u128 => Some(96u8), // plum
        49885845u128 => Some(176u8), // plum2
        49885846u128 => Some(183u8), // plum3
        49885847u128 => Some(219u8), // plum4
        1862496580u128 => Some(5u8), // purple
        68912373462u128 => Some(54u8), // purple1
        68912373463u128 => Some(55u8), // purple2
        68912373464u128 => Some(56u8), // purple3
        68912373465u128 => Some(93u8), // purple4
        68912373466u128 => Some(129u8), // purple5
        38901u128 => Some(9u8), // red
        1439339u128 => Some(124u8), // red1
        1439340u128 => Some(160u8), // red2
        1439341u128 => Some(196u8), // red3
        100799578686155u128 => Some(138u8), // rosybrown
        100813326716613u128 => Some(63u8), // royalblue
        2032737326u128 => Some(209u8), // salmon
        3809844464253463u128 => Some(215u8), // sandybrown
        103315337416200u128 => Some(78u8), // seagreen1
        103315337416201u128 => Some(83u8), // seagreen2
        103315337416202u128 => Some(84u8), // seagreen3
        103315337416203u128 => Some(85u8), // seagreen4
        2047742569u128 => Some(7u8), // silver
        2809355377235u128 => Some(74u8), // skyblue1
        2809355377236u128 => Some(111u8), // skyblue2
        2809355377237u128 => Some(117u8), // skyblue3
        3847287288290877u128 => Some(61u8), // slateblue1
        3847287288290878u128 => Some(62u8), // slateblue2
        3847287288290879u128 => Some(99u8), // slateblue3
        5288342214325607848u128 => Some(29u8), // springgreen1
        5288342214325607849u128 => Some(35u8), // springgreen2
        5288342214325607850u128 => Some(41u8), // springgreen3
        5288342214325607851u128 => Some(42u8), // springgreen4
        5288342214325607852u128 => Some(47u8), // springgreen5
        5288342214325607853u128 => Some(48u8), // springgreen6
        3875728850942341u128 => Some(67u8), // steelblue1
        3875728850942342u128 => Some(68u8), // steelblue2
        3875728850942343u128 => Some(75u8), // steelblue3
        3875728850942344u128 => Some(81u8), // steelblue4
        41501u128 => Some(180u8), // tan
        1540554u128 => Some(6u8), // teal
        2895512825469u128 => Some(182u8), // thistle1
        2895512825470u128 => Some(225u8), // thistle2
        4010468621615985u128 => Some(30u8), // turquoise1
        4010468621615986u128 => Some(45u8), // turquoise2
        2255912711u128 => Some(177u8), // violet
        2322861445u128 => Some(101u8), // wheat1
        2322861446u128 => Some(229u8), // wheat2
        62786203u128 => Some(15u8), // white
        2456296352u128 => Some(11u8), // yellow
        90882965026u128 => Some(100u8), // yellow1
        90882965027u128 => Some(106u8), // yellow2
        90882965028u128 => Some(148u8), // yellow3
        90882965029u128 => Some(184u8), // yellow4
        90882965030u128 => Some(190u8), // yellow5
        90882965031u128 => Some(226u8), // yellow6
        _ => None,
    }
}

} // verus!

verus! {

/// Powers of 37.
pub open spec fn pow37(n: nat) -> int
    decreases n,
{
    if n == 0 {
        1
    } else {
        37 * pow37((n - 1) as nat)
    }
}

proof fn lemma_pow37_17()
    ensures
        pow37(17) < 0x1_0000_0000_0000_0000_0000_0000_0000_0000,
{
    reveal_with_fuel(pow37, 18);
}

proof fn lemma_pow37_mono(a: nat, b: nat)
    requires
        a <= b,
    ensures
        1 <= pow37(a) <= pow37(b),
    decreases b,
{
    if a < b {
        lemma_pow37_mono(a, (b - 1) as nat);
    } else if a > 0 {
        lemma_pow37_mono((a - 1) as nat, (a - 1) as nat);
    }
}

/// Looks up the palette index of the color named by `s[from..to]`, ignoring ASCII case.
pub fn color_for_name(s: &Vec<char>, from: usize, to: usize) -> (r: Option<u8>)
    requires
        from <= to <= s.len(),
    ensures
        r == named_color(s@.subrange(from as int, to as int)),
{
    let ghost name = s@.subrange(from as int, to as int);
    let ghost lower = ascii_lower(name);
    if to - from > MAX_NAME_LEN {
        return None;
    }
    let mut code: u128 = 0;
    let mut i: usize = from;
    while i < to
        invariant
            from <= i <= to <= s.len(),
            to - from <= MAX_NAME_LEN,
            name == s@.subrange(from as int, to as int),
            lower == ascii_lower(name),
            forall|k: int| 0 <= k < i - from ==> #[trigger] is_alnum(lower[k]),
            code as int == name_code(lower.take(i - from)),
            code < pow37((i - from) as nat),
        decreases to - i,
    {
        let c = s[i];
        let lc = if 'A' <= c && c <= 'Z' {
            char_from_code((c as u32) + 32)
        } else {
            c
        };
        assert(lc == lower[i - from]);
        let v: u128 = if '0' <= lc && lc <= '9' {
            ((lc as u32) - 48) as u128 + 1
        } else if 'a' <= lc && lc <= 'z' {
            ((lc as u32) - 97) as u128 + 11
        } else {
            proof {
                assert(!is_alnum(lower[i - from]));
            }
            return None;
        };
        proof {
            assert(('0' as int) == 48 && ('a' as int) == 97);
            assert(v == name_char_code(lc));
            let t = lower.take(i - from + 1);
            assert(t.drop_last() == lower.take(i - from));
            assert(t.last() == lc);
            lemma_pow37_mono((i - from + 1) as nat, 17);
            lemma_pow37_17();
            let n = code as int;
            let p = pow37((i - from) as nat);
            assert(n * 37 + 36 < p * 37) by (nonlinear_arith)
                requires
                    0 <= n < p,
            ;
        }
        code = code * 37 + v;
        i = i + 1;
    }
    proof {
        assert(lower.take(to - from) == lower);
    }
    index_of_code(code)
}

fn char_from_code(v: u32) -> (c: char)
    requires
        v < 128,
    ensures
        c == (v as char),
{
    let b: u8 = v as u8;
    b as char
}

} // verus!
