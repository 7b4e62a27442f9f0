use vstd::prelude::*;

verus! {

/// The 16-color palette entry that stands in for each 256-color palette entry.
pub open spec fn sixteen_of_256(c: u8) -> u8 {
    match c {
        0u8 => 0u8,
        1u8 => 1u8,
        2u8 => 2u8,
        3u8 => 3u8,
        4u8 => 4u8,
        5u8 => 5u8,
        6u8 => 6u8,
        7u8 => 7u8,
        8u8 => 8u8,
        9u8 => 9u8,
        10u8 => 10u8,
        11u8 => 11u8,
        12u8 => 12u8,
        13u8 => 13u8,
        14u8 => 14u8,
        15u8 => 15u8,
        16u8 => 0u8,
        17u8..=19u8 => 4u8,
        20u8..=21u8 => 12u8,
        22u8 => 2u8,
        23u8 => 6u8,
        24u8..=25u8 => 4u8,
        26u8..=27u8 => 12u8,
        28u8..=29u8 => 2u8,
        30u8 => 6u8,
        31u8 => 4u8,
        32u8..=33u8 => 12u8,
        34u8..=36u8 => 2u8,
        37u8 => 6u8,
        38u8..=39u8 => 12u8,
        40u8..=43u8 => 10u8,
        44u8 => 14u8,
        45u8 => 12u8,
        46u8..=50u8 => 10u8,
        51u8 => 14u8,
        52u8 => 1u8,
        53u8 => 5u8,
        54u8..=55u8 => 4u8,
        56u8..=57u8 => 12u8,
        58u8 => 3u8,
        59u8 => 8u8,
        60u8..=61u8 => 4u8,
        62u8..=63u8 => 12u8,
        64u8..=65u8 => 2u8,
        66u8 => 6u8,
        67u8 => 4u8,
        68u8..=69u8 => 12u8,
        70u8..=72u8 => 2u8,
        73u8 => 6u8,
        74u8..=75u8 => 12u8,
        76u8..=79u8 => 10u8,
        80u8 => 14u8,
        81u8 => 12u8,
        82u8..=86u8 => 10u8,
        87u8 => 14u8,
        88u8..=89u8 => 1u8,
        90u8 => 5u8,
        91u8 => 4u8,
        92u8..=93u8 => 12u8,
        94u8..=95u8 => 1u8,
        96u8 => 5u8,
        97u8 => 4u8,
        98u8..=99u8 => 12u8,
        100u8..=101u8 => 3u8,
        102u8 => 8u8,
        103u8 => 4u8,
        104u8..=105u8 => 12u8,
        106u8..=108u8 => 2u8,
        109u8 => 6u8,
        110u8..=111u8 => 12u8,
        112u8..=115u8 => 10u8,
        116u8 => 14u8,
        117u8 => 12u8,
        118u8..=122u8 => 10u8,
        123u8 => 14u8,
        124u8..=126u8 => 1u8,
        127u8 => 5u8,
        128u8..=129u8 => 12u8,
        130u8..=132u8 => 1u8,
        133u8 => 5u8,
        134u8..=135u8 => 12u8,
        136u8..=138u8 => 1u8,
        139u8 => 5u8,
        140u8..=141u8 => 12u8,
        142u8..=144u8 => 3u8,
        145u8 => 7u8,
        146u8..=147u8 => 12u8,
        148u8..=151u8 => 10u8,
        152u8 => 14u8,
        153u8 => 12u8,
        154u8..=158u8 => 10u8,
        159u8 => 14u8,
        160u8..=163u8 => 9u8,
        164u8 => 13u8,
        165u8 => 12u8,
        166u8..=169u8 => 9u8,
        170u8 => 13u8,
        171u8 => 12u8,
        172u8..=175u8 => 9u8,
        176u8 => 13u8,
        177u8 => 12u8,
        178u8..=181u8 => 9u8,
        182u8 => 13u8,
        183u8 => 12u8,
        184u8..=187u8 => 11u8,
        188u8 => 7u8,
        189u8 => 12u8,
        190u8..=194u8 => 10u8,
        195u8 => 14u8,
        196u8..=200u8 => 9u8,
        201u8 => 13u8,
        202u8..=206u8 => 9u8,
        207u8 => 13u8,
        208u8..=212u8 => 9u8,
        213u8 => 13u8,
        214u8..=218u8 => 9u8,
        219u8 => 13u8,
        220u8..=224u8 => 9u8,
        225u8 => 13u8,
        226u8..=230u8 => 11u8,
        231u8 => 15u8,
        232u8..=237u8 => 0u8,
        238u8..=243u8 => 8u8,
        244u8..=249u8 => 7u8,
        250u8..=255u8 => 15u8,
    }
}

/// Looks up the 16-color palette entry that stands in for a 256-color palette entry.
pub fn sixteen_for(c: u8) -> (r: u8)
    ensures
        r == sixteen_of_256(c),
        r < 16,
{
    match c {
        0u8 => 0u8,
        1u8 => 1u8,
        2u8 => 2u8,
        3u8 => 3u8,
        4u8 => 4u8,
        5u8 => 5u8,
        6u8 => 6u8,
        7u8 => 7u8,
        8u8 => 8u8,
        9u8 => 9u8,
        10u8 => 10u8,
        11u8 => 11u8,
        12u8 => 12u8,
        13u8 => 13u8,
        14u8 => 14u8,
        15u8 => 15u8,
        16u8 => 0u8,
        17u8..=19u8 => 4u8,
        20u8..=21u8 => 12u8,
        22u8 => 2u8,
        23u8 => 6u8,
        24u8..=25u8 => 4u8,
        26u8..=27u8 => 12u8,
        28u8..=29u8 => 2u8,
        30u8 => 6u8,
        31u8 => 4u8,
        32u8..=33u8 => 12u8,
        34u8..=36u8 => 2u8,
        37u8 => 6u8,
        38u8..=39u8 => 12u8,
        40u8..=43u8 => 10u8,
        44u8 => 14u8,
        45u8 => 12u8,
        46u8..=50u8 => 10u8,
        51u8 => 14u8,
        52u8 => 1u8,
        53u8 => 5u8,
        54u8..=55u8 => 4u8,
        56u8..=57u8 => 12u8,
        58u8 => 3u8,
        59u8 => 8u8,
        60u8..=61u8 => 4u8,
        62u8..=63u8 => 12u8,
        64u8..=65u8 => 2u8,
        66u8 => 6u8,
        67u8 => 4u8,
        68u8..=69u8 => 12u8,
        70u8..=72u8 => 2u8,
        73u8 => 6u8,
        74u8..=75u8 => 12u8,
        76u8..=79u8 => 10u8,
        80u8 => 14u8,
        81u8 => 12u8,
        82u8..=86u8 => 10u8,
        87u8 => 14u8,
        88u8..=89u8 => 1u8,
        90u8 => 5u8,
        91u8 => 4u8,
        92u8..=93u8 => 12u8,
        94u8..=95u8 => 1u8,
        96u8 => 5u8,
        97u8 => 4u8,
        98u8..=99u8 => 12u8,
        100u8..=101u8 => 3u8,
        102u8 => 8u8,
        103u8 => 4u8,
        104u8..=105u8 => 12u8,
        106u8..=108u8 => 2u8,
        109u8 => 6u8,
        110u8..=111u8 => 12u8,
        112u8..=115u8 => 10u8,
        116u8 => 14u8,
        117u8 => 12u8,
        118u8..=122u8 => 10u8,
        123u8 => 14u8,
        124u8..=126u8 => 1u8,
        127u8 => 5u8,
        128u8..=129u8 => 12u8,
        130u8..=132u8 => 1u8,
        133u8 => 5u8,
        134u8..=135u8 => 12u8,
        136u8..=138u8 => 1u8,
        139u8 => 5u8,
        140u8..=141u8 => 12u8,
        142u8..=144u8 => 3u8,
        145u8 => 7u8,
        146u8..=147u8 => 12u8,
        148u8..=151u8 => 10u8,
        152u8 => 14u8,
        153u8 => 12u8,
        154u8..=158u8 => 10u8,
        159u8 => 14u8,
        160u8..=163u8 => 9u8,
        164u8 => 13u8,
        165u8 => 12u8,
        166u8..=169u8 => 9u8,
        170u8 => 13u8,
        171u8 => 12u8,
        172u8..=175u8 => 9u8,
        176u8 => 13u8,
        177u8 => 12u8,
        178u8..=181u8 => 9u8,
        182u8 => 13u8,
        183u8 => 12u8,
        184u8..=187u8 => 11u8,
        188u8 => 7u8,
        189u8 => 12u8,
        190u8..=194u8 => 10u8,
        195u8 => 14u8,
        196u8..=200u8 => 9u8,
        201u8 => 13u8,
        202u8..=206u8 => 9u8,
        207u8 => 13u8,
        208u8..=212u8 => 9u8,
        213u8 => 13u8,
        214u8..=218u8 => 9u8,
        219u8 => 13u8,
        220u8..=224u8 => 9u8,
        225u8 => 13u8,
        226u8..=230u8 => 11u8,
        231u8 => 15u8,
        232u8..=237u8 => 0u8,
        238u8..=243u8 => 8u8,
        244u8..=249u8 => 7u8,
        250u8..=255u8 => 15u8,
    }
}

} // verus!
