//! The powers of 2 in the field of 256 elements: the first 255 of them are
//! all the elements but zero, each once. With that, and with the fact that
//! a product is zero only where a factor is, the field is a field.

use vstd::prelude::*;
use crate::galois::{lemma_mul_one, lemma_mul_associates};
use crate::reed_solomon::{gf_exp, gf_mul, times_x};

verus! {

/// The powers of 2, from the power 0 to the power 254.
pub const POWERS: [u8; 255] = [
    1, 2, 4, 8, 16, 32, 64, 128, 29, 58, 116, 232, 205, 135, 19, 38,
    76, 152, 45, 90, 180, 117, 234, 201, 143, 3, 6, 12, 24, 48, 96, 192,
    157, 39, 78, 156, 37, 74, 148, 53, 106, 212, 181, 119, 238, 193, 159, 35,
    70, 140, 5, 10, 20, 40, 80, 160, 93, 186, 105, 210, 185, 111, 222, 161,
    95, 190, 97, 194, 153, 47, 94, 188, 101, 202, 137, 15, 30, 60, 120, 240,
    253, 231, 211, 187, 107, 214, 177, 127, 254, 225, 223, 163, 91, 182, 113, 226,
    217, 175, 67, 134, 17, 34, 68, 136, 13, 26, 52, 104, 208, 189, 103, 206,
    129, 31, 62, 124, 248, 237, 199, 147, 59, 118, 236, 197, 151, 51, 102, 204,
    133, 23, 46, 92, 184, 109, 218, 169, 79, 158, 33, 66, 132, 21, 42, 84,
    168, 77, 154, 41, 82, 164, 85, 170, 73, 146, 57, 114, 228, 213, 183, 115,
    230, 209, 191, 99, 198, 145, 63, 126, 252, 229, 215, 179, 123, 246, 241, 255,
    227, 219, 171, 75, 150, 49, 98, 196, 149, 55, 110, 220, 165, 87, 174, 65,
    130, 25, 50, 100, 200, 141, 7, 14, 28, 56, 112, 224, 221, 167, 83, 166,
    81, 162, 89, 178, 121, 242, 249, 239, 195, 155, 43, 86, 172, 69, 138, 9,
    18, 36, 72, 144, 61, 122, 244, 245, 247, 243, 251, 235, 203, 139, 11, 22,
    44, 88, 176, 125, 250, 233, 207, 131, 27, 54, 108, 216, 173, 71, 142,
];

/// For every element but zero, the power of 2 that it is; the entry of
/// zero is unused.
pub const LOGARITHMS: [u8; 256] = [
    0, 0, 1, 25, 2, 50, 26, 198, 3, 223, 51, 238, 27, 104, 199, 75,
    4, 100, 224, 14, 52, 141, 239, 129, 28, 193, 105, 248, 200, 8, 76, 113,
    5, 138, 101, 47, 225, 36, 15, 33, 53, 147, 142, 218, 240, 18, 130, 69,
    29, 181, 194, 125, 106, 39, 249, 185, 201, 154, 9, 120, 77, 228, 114, 166,
    6, 191, 139, 98, 102, 221, 48, 253, 226, 152, 37, 179, 16, 145, 34, 136,
    54, 208, 148, 206, 143, 150, 219, 189, 241, 210, 19, 92, 131, 56, 70, 64,
    30, 66, 182, 163, 195, 72, 126, 110, 107, 58, 40, 84, 250, 133, 186, 61,
    202, 94, 155, 159, 10, 21, 121, 43, 78, 212, 229, 172, 115, 243, 167, 87,
    7, 112, 192, 247, 140, 128, 99, 13, 103, 74, 222, 237, 49, 197, 254, 24,
    227, 165, 153, 119, 38, 184, 180, 124, 17, 68, 146, 217, 35, 32, 137, 46,
    55, 63, 209, 91, 149, 188, 207, 205, 144, 135, 151, 178, 220, 252, 190, 97,
    242, 86, 211, 171, 20, 42, 93, 158, 132, 60, 57, 83, 71, 109, 65, 162,
    31, 45, 67, 216, 183, 123, 164, 118, 196, 23, 73, 236, 127, 12, 111, 246,
    108, 161, 59, 82, 41, 157, 85, 170, 251, 96, 134, 177, 187, 204, 62, 90,
    203, 89, 95, 176, 156, 169, 160, 81, 11, 245, 22, 235, 122, 117, 44, 215,
    79, 174, 213, 233, 230, 231, 173, 232, 116, 214, 244, 234, 168, 80, 88, 175,
];

proof fn lemma_power_steps()
    ensures
        times_x(1u8) == 2u8 && times_x(2u8) == 4u8 && times_x(4u8) == 8u8 && times_x(8u8) == 16u8 && times_x(16u8) == 32u8 && times_x(32u8) == 64u8 && times_x(64u8) == 128u8 && times_x(128u8) == 29u8 && times_x(29u8) == 58u8 && times_x(58u8) == 116u8 && times_x(116u8) == 232u8 && times_x(232u8) == 205u8 && times_x(205u8) == 135u8 && times_x(135u8) == 19u8 && times_x(19u8) == 38u8 && times_x(38u8) == 76u8 && times_x(76u8) == 152u8 && times_x(152u8) == 45u8 && times_x(45u8) == 90u8 && times_x(90u8) == 180u8 && times_x(180u8) == 117u8 && times_x(117u8) == 234u8 && times_x(234u8) == 201u8 && times_x(201u8) == 143u8 && times_x(143u8) == 3u8 && times_x(3u8) == 6u8 && times_x(6u8) == 12u8 && times_x(12u8) == 24u8 && times_x(24u8) == 48u8 && times_x(48u8) == 96u8 && times_x(96u8) == 192u8 && times_x(192u8) == 157u8 && times_x(157u8) == 39u8 && times_x(39u8) == 78u8 && times_x(78u8) == 156u8 && times_x(156u8) == 37u8 && times_x(37u8) == 74u8 && times_x(74u8) == 148u8 && times_x(148u8) == 53u8 && times_x(53u8) == 106u8 && times_x(106u8) == 212u8 && times_x(212u8) == 181u8 && times_x(181u8) == 119u8 && times_x(119u8) == 238u8 && times_x(238u8) == 193u8 && times_x(193u8) == 159u8 && times_x(159u8) == 35u8 && times_x(35u8) == 70u8 && times_x(70u8) == 140u8 && times_x(140u8) == 5u8 && times_x(5u8) == 10u8 && times_x(10u8) == 20u8 && times_x(20u8) == 40u8 && times_x(40u8) == 80u8 && times_x(80u8) == 160u8 && times_x(160u8) == 93u8 && times_x(93u8) == 186u8 && times_x(186u8) == 105u8 && times_x(105u8) == 210u8 && times_x(210u8) == 185u8 && times_x(185u8) == 111u8 && times_x(111u8) == 222u8 && times_x(222u8) == 161u8 && times_x(161u8) == 95u8 && times_x(95u8) == 190u8 && times_x(190u8) == 97u8 && times_x(97u8) == 194u8 && times_x(194u8) == 153u8 && times_x(153u8) == 47u8 && times_x(47u8) == 94u8 && times_x(94u8) == 188u8 && times_x(188u8) == 101u8 && times_x(101u8) == 202u8 && times_x(202u8) == 137u8 && times_x(137u8) == 15u8 && times_x(15u8) == 30u8 && times_x(30u8) == 60u8 && times_x(60u8) == 120u8 && times_x(120u8) == 240u8 && times_x(240u8) == 253u8 && times_x(253u8) == 231u8 && times_x(231u8) == 211u8 && times_x(211u8) == 187u8 && times_x(187u8) == 107u8 && times_x(107u8) == 214u8 && times_x(214u8) == 177u8 && times_x(177u8) == 127u8 && times_x(127u8) == 254u8 && times_x(254u8) == 225u8 && times_x(225u8) == 223u8 && times_x(223u8) == 163u8 && times_x(163u8) == 91u8 && times_x(91u8) == 182u8 && times_x(182u8) == 113u8 && times_x(113u8) == 226u8 && times_x(226u8) == 217u8 && times_x(217u8) == 175u8 && times_x(175u8) == 67u8 && times_x(67u8) == 134u8 && times_x(134u8) == 17u8 && times_x(17u8) == 34u8 && times_x(34u8) == 68u8 && times_x(68u8) == 136u8 && times_x(136u8) == 13u8 && times_x(13u8) == 26u8 && times_x(26u8) == 52u8 && times_x(52u8) == 104u8 && times_x(104u8) == 208u8 && times_x(208u8) == 189u8 && times_x(189u8) == 103u8 && times_x(103u8) == 206u8 && times_x(206u8) == 129u8 && times_x(129u8) == 31u8 && times_x(31u8) == 62u8 && times_x(62u8) == 124u8 && times_x(124u8) == 248u8 && times_x(248u8) == 237u8 && times_x(237u8) == 199u8 && times_x(199u8) == 147u8 && times_x(147u8) == 59u8 && times_x(59u8) == 118u8 && times_x(118u8) == 236u8 && times_x(236u8) == 197u8 && times_x(197u8) == 151u8 && times_x(151u8) == 51u8 && times_x(51u8) == 102u8 && times_x(102u8) == 204u8 && times_x(204u8) == 133u8 && times_x(133u8) == 23u8 && times_x(23u8) == 46u8 && times_x(46u8) == 92u8 && times_x(92u8) == 184u8 && times_x(184u8) == 109u8 && times_x(109u8) == 218u8 && times_x(218u8) == 169u8 && times_x(169u8) == 79u8 && times_x(79u8) == 158u8 && times_x(158u8) == 33u8 && times_x(33u8) == 66u8 && times_x(66u8) == 132u8 && times_x(132u8) == 21u8 && times_x(21u8) == 42u8 && times_x(42u8) == 84u8 && times_x(84u8) == 168u8 && times_x(168u8) == 77u8 && times_x(77u8) == 154u8 && times_x(154u8) == 41u8 && times_x(41u8) == 82u8 && times_x(82u8) == 164u8 && times_x(164u8) == 85u8 && times_x(85u8) == 170u8 && times_x(170u8) == 73u8 && times_x(73u8) == 146u8 && times_x(146u8) == 57u8 && times_x(57u8) == 114u8 && times_x(114u8) == 228u8 && times_x(228u8) == 213u8 && times_x(213u8) == 183u8 && times_x(183u8) == 115u8 && times_x(115u8) == 230u8 && times_x(230u8) == 209u8 && times_x(209u8) == 191u8 && times_x(191u8) == 99u8 && times_x(99u8) == 198u8 && times_x(198u8) == 145u8 && times_x(145u8) == 63u8 && times_x(63u8) == 126u8 && times_x(126u8) == 252u8 && times_x(252u8) == 229u8 && times_x(229u8) == 215u8 && times_x(215u8) == 179u8 && times_x(179u8) == 123u8 && times_x(123u8) == 246u8 && times_x(246u8) == 241u8 && times_x(241u8) == 255u8 && times_x(255u8) == 227u8 && times_x(227u8) == 219u8 && times_x(219u8) == 171u8 && times_x(171u8) == 75u8 && times_x(75u8) == 150u8 && times_x(150u8) == 49u8 && times_x(49u8) == 98u8 && times_x(98u8) == 196u8 && times_x(196u8) == 149u8 && times_x(149u8) == 55u8 && times_x(55u8) == 110u8 && times_x(110u8) == 220u8 && times_x(220u8) == 165u8 && times_x(165u8) == 87u8 && times_x(87u8) == 174u8 && times_x(174u8) == 65u8 && times_x(65u8) == 130u8 && times_x(130u8) == 25u8 && times_x(25u8) == 50u8 && times_x(50u8) == 100u8 && times_x(100u8) == 200u8 && times_x(200u8) == 141u8 && times_x(141u8) == 7u8 && times_x(7u8) == 14u8 && times_x(14u8) == 28u8 && times_x(28u8) == 56u8 && times_x(56u8) == 112u8 && times_x(112u8) == 224u8 && times_x(224u8) == 221u8 && times_x(221u8) == 167u8 && times_x(167u8) == 83u8 && times_x(83u8) == 166u8 && times_x(166u8) == 81u8 && times_x(81u8) == 162u8 && times_x(162u8) == 89u8 && times_x(89u8) == 178u8 && times_x(178u8) == 121u8 && times_x(121u8) == 242u8 && times_x(242u8) == 249u8 && times_x(249u8) == 239u8 && times_x(239u8) == 195u8 && times_x(195u8) == 155u8 && times_x(155u8) == 43u8 && times_x(43u8) == 86u8 && times_x(86u8) == 172u8 && times_x(172u8) == 69u8 && times_x(69u8) == 138u8 && times_x(138u8) == 9u8 && times_x(9u8) == 18u8 && times_x(18u8) == 36u8 && times_x(36u8) == 72u8 && times_x(72u8) == 144u8 && times_x(144u8) == 61u8 && times_x(61u8) == 122u8 && times_x(122u8) == 244u8 && times_x(244u8) == 245u8 && times_x(245u8) == 247u8 && times_x(247u8) == 243u8 && times_x(243u8) == 251u8 && times_x(251u8) == 235u8 && times_x(235u8) == 203u8 && times_x(203u8) == 139u8 && times_x(139u8) == 11u8 && times_x(11u8) == 22u8 && times_x(22u8) == 44u8 && times_x(44u8) == 88u8 && times_x(88u8) == 176u8 && times_x(176u8) == 125u8 && times_x(125u8) == 250u8 && times_x(250u8) == 233u8 && times_x(233u8) == 207u8 && times_x(207u8) == 131u8 && times_x(131u8) == 27u8 && times_x(27u8) == 54u8 && times_x(54u8) == 108u8 && times_x(108u8) == 216u8 && times_x(216u8) == 173u8 && times_x(173u8) == 71u8 && times_x(71u8) == 142u8,
{
    assert(times_x(1u8) == 2u8 && times_x(2u8) == 4u8 && times_x(4u8) == 8u8 && times_x(8u8) == 16u8 && times_x(16u8) == 32u8 && times_x(32u8) == 64u8 && times_x(64u8) == 128u8 && times_x(128u8) == 29u8 && times_x(29u8) == 58u8 && times_x(58u8) == 116u8 && times_x(116u8) == 232u8 && times_x(232u8) == 205u8 && times_x(205u8) == 135u8 && times_x(135u8) == 19u8 && times_x(19u8) == 38u8 && times_x(38u8) == 76u8 && times_x(76u8) == 152u8 && times_x(152u8) == 45u8 && times_x(45u8) == 90u8 && times_x(90u8) == 180u8 && times_x(180u8) == 117u8 && times_x(117u8) == 234u8 && times_x(234u8) == 201u8 && times_x(201u8) == 143u8 && times_x(143u8) == 3u8 && times_x(3u8) == 6u8 && times_x(6u8) == 12u8 && times_x(12u8) == 24u8 && times_x(24u8) == 48u8 && times_x(48u8) == 96u8 && times_x(96u8) == 192u8 && times_x(192u8) == 157u8 && times_x(157u8) == 39u8 && times_x(39u8) == 78u8 && times_x(78u8) == 156u8 && times_x(156u8) == 37u8 && times_x(37u8) == 74u8 && times_x(74u8) == 148u8 && times_x(148u8) == 53u8 && times_x(53u8) == 106u8 && times_x(106u8) == 212u8 && times_x(212u8) == 181u8 && times_x(181u8) == 119u8 && times_x(119u8) == 238u8 && times_x(238u8) == 193u8 && times_x(193u8) == 159u8 && times_x(159u8) == 35u8 && times_x(35u8) == 70u8 && times_x(70u8) == 140u8 && times_x(140u8) == 5u8 && times_x(5u8) == 10u8 && times_x(10u8) == 20u8 && times_x(20u8) == 40u8 && times_x(40u8) == 80u8 && times_x(80u8) == 160u8 && times_x(160u8) == 93u8 && times_x(93u8) == 186u8 && times_x(186u8) == 105u8 && times_x(105u8) == 210u8 && times_x(210u8) == 185u8 && times_x(185u8) == 111u8 && times_x(111u8) == 222u8 && times_x(222u8) == 161u8 && times_x(161u8) == 95u8 && times_x(95u8) == 190u8 && times_x(190u8) == 97u8 && times_x(97u8) == 194u8 && times_x(194u8) == 153u8 && times_x(153u8) == 47u8 && times_x(47u8) == 94u8 && times_x(94u8) == 188u8 && times_x(188u8) == 101u8 && times_x(101u8) == 202u8 && times_x(202u8) == 137u8 && times_x(137u8) == 15u8 && times_x(15u8) == 30u8 && times_x(30u8) == 60u8 && times_x(60u8) == 120u8 && times_x(120u8) == 240u8 && times_x(240u8) == 253u8 && times_x(253u8) == 231u8 && times_x(231u8) == 211u8 && times_x(211u8) == 187u8 && times_x(187u8) == 107u8 && times_x(107u8) == 214u8 && times_x(214u8) == 177u8 && times_x(177u8) == 127u8 && times_x(127u8) == 254u8 && times_x(254u8) == 225u8 && times_x(225u8) == 223u8 && times_x(223u8) == 163u8 && times_x(163u8) == 91u8 && times_x(91u8) == 182u8 && times_x(182u8) == 113u8 && times_x(113u8) == 226u8 && times_x(226u8) == 217u8 && times_x(217u8) == 175u8 && times_x(175u8) == 67u8 && times_x(67u8) == 134u8 && times_x(134u8) == 17u8 && times_x(17u8) == 34u8 && times_x(34u8) == 68u8 && times_x(68u8) == 136u8 && times_x(136u8) == 13u8 && times_x(13u8) == 26u8 && times_x(26u8) == 52u8 && times_x(52u8) == 104u8 && times_x(104u8) == 208u8 && times_x(208u8) == 189u8 && times_x(189u8) == 103u8 && times_x(103u8) == 206u8 && times_x(206u8) == 129u8 && times_x(129u8) == 31u8 && times_x(31u8) == 62u8 && times_x(62u8) == 124u8 && times_x(124u8) == 248u8 && times_x(248u8) == 237u8 && times_x(237u8) == 199u8 && times_x(199u8) == 147u8 && times_x(147u8) == 59u8 && times_x(59u8) == 118u8 && times_x(118u8) == 236u8 && times_x(236u8) == 197u8 && times_x(197u8) == 151u8 && times_x(151u8) == 51u8 && times_x(51u8) == 102u8 && times_x(102u8) == 204u8 && times_x(204u8) == 133u8 && times_x(133u8) == 23u8 && times_x(23u8) == 46u8 && times_x(46u8) == 92u8 && times_x(92u8) == 184u8 && times_x(184u8) == 109u8 && times_x(109u8) == 218u8 && times_x(218u8) == 169u8 && times_x(169u8) == 79u8 && times_x(79u8) == 158u8 && times_x(158u8) == 33u8 && times_x(33u8) == 66u8 && times_x(66u8) == 132u8 && times_x(132u8) == 21u8 && times_x(21u8) == 42u8 && times_x(42u8) == 84u8 && times_x(84u8) == 168u8 && times_x(168u8) == 77u8 && times_x(77u8) == 154u8 && times_x(154u8) == 41u8 && times_x(41u8) == 82u8 && times_x(82u8) == 164u8 && times_x(164u8) == 85u8 && times_x(85u8) == 170u8 && times_x(170u8) == 73u8 && times_x(73u8) == 146u8 && times_x(146u8) == 57u8 && times_x(57u8) == 114u8 && times_x(114u8) == 228u8 && times_x(228u8) == 213u8 && times_x(213u8) == 183u8 && times_x(183u8) == 115u8 && times_x(115u8) == 230u8 && times_x(230u8) == 209u8 && times_x(209u8) == 191u8 && times_x(191u8) == 99u8 && times_x(99u8) == 198u8 && times_x(198u8) == 145u8 && times_x(145u8) == 63u8 && times_x(63u8) == 126u8 && times_x(126u8) == 252u8 && times_x(252u8) == 229u8 && times_x(229u8) == 215u8 && times_x(215u8) == 179u8 && times_x(179u8) == 123u8 && times_x(123u8) == 246u8 && times_x(246u8) == 241u8 && times_x(241u8) == 255u8 && times_x(255u8) == 227u8 && times_x(227u8) == 219u8 && times_x(219u8) == 171u8 && times_x(171u8) == 75u8 && times_x(75u8) == 150u8 && times_x(150u8) == 49u8 && times_x(49u8) == 98u8 && times_x(98u8) == 196u8 && times_x(196u8) == 149u8 && times_x(149u8) == 55u8 && times_x(55u8) == 110u8 && times_x(110u8) == 220u8 && times_x(220u8) == 165u8 && times_x(165u8) == 87u8 && times_x(87u8) == 174u8 && times_x(174u8) == 65u8 && times_x(65u8) == 130u8 && times_x(130u8) == 25u8 && times_x(25u8) == 50u8 && times_x(50u8) == 100u8 && times_x(100u8) == 200u8 && times_x(200u8) == 141u8 && times_x(141u8) == 7u8 && times_x(7u8) == 14u8 && times_x(14u8) == 28u8 && times_x(28u8) == 56u8 && times_x(56u8) == 112u8 && times_x(112u8) == 224u8 && times_x(224u8) == 221u8 && times_x(221u8) == 167u8 && times_x(167u8) == 83u8 && times_x(83u8) == 166u8 && times_x(166u8) == 81u8 && times_x(81u8) == 162u8 && times_x(162u8) == 89u8 && times_x(89u8) == 178u8 && times_x(178u8) == 121u8 && times_x(121u8) == 242u8 && times_x(242u8) == 249u8 && times_x(249u8) == 239u8 && times_x(239u8) == 195u8 && times_x(195u8) == 155u8 && times_x(155u8) == 43u8 && times_x(43u8) == 86u8 && times_x(86u8) == 172u8 && times_x(172u8) == 69u8 && times_x(69u8) == 138u8 && times_x(138u8) == 9u8 && times_x(9u8) == 18u8 && times_x(18u8) == 36u8 && times_x(36u8) == 72u8 && times_x(72u8) == 144u8 && times_x(144u8) == 61u8 && times_x(61u8) == 122u8 && times_x(122u8) == 244u8 && times_x(244u8) == 245u8 && times_x(245u8) == 247u8 && times_x(247u8) == 243u8 && times_x(243u8) == 251u8 && times_x(251u8) == 235u8 && times_x(235u8) == 203u8 && times_x(203u8) == 139u8 && times_x(139u8) == 11u8 && times_x(11u8) == 22u8 && times_x(22u8) == 44u8 && times_x(44u8) == 88u8 && times_x(88u8) == 176u8 && times_x(176u8) == 125u8 && times_x(125u8) == 250u8 && times_x(250u8) == 233u8 && times_x(233u8) == 207u8 && times_x(207u8) == 131u8 && times_x(131u8) == 27u8 && times_x(27u8) == 54u8 && times_x(54u8) == 108u8 && times_x(108u8) == 216u8 && times_x(216u8) == 173u8 && times_x(173u8) == 71u8 && times_x(71u8) == 142u8) by (bit_vector);
}

proof fn lemma_power_step(d: int)
    requires
        0 <= d < 254,
    ensures
        times_x(POWERS[d]) == POWERS[d + 1],
{
    lemma_power_steps();
    if d == 0 {
        assert(POWERS[0] == 1 && POWERS[1] == 2);
    } else if d == 1 {
        assert(POWERS[1] == 2 && POWERS[2] == 4);
    } else if d == 2 {
        assert(POWERS[2] == 4 && POWERS[3] == 8);
    } else if d == 3 {
        assert(POWERS[3] == 8 && POWERS[4] == 16);
    } else if d == 4 {
        assert(POWERS[4] == 16 && POWERS[5] == 32);
    } else if d == 5 {
        assert(POWERS[5] == 32 && POWERS[6] == 64);
    } else if d == 6 {
        assert(POWERS[6] == 64 && POWERS[7] == 128);
    } else if d == 7 {
        assert(POWERS[7] == 128 && POWERS[8] == 29);
    } else if d == 8 {
        assert(POWERS[8] == 29 && POWERS[9] == 58);
    } else if d == 9 {
        assert(POWERS[9] == 58 && POWERS[10] == 116);
    } else if d == 10 {
        assert(POWERS[10] == 116 && POWERS[11] == 232);
    } else if d == 11 {
        assert(POWERS[11] == 232 && POWERS[12] == 205);
    } else if d == 12 {
        assert(POWERS[12] == 205 && POWERS[13] == 135);
    } else if d == 13 {
        assert(POWERS[13] == 135 && POWERS[14] == 19);
    } else if d == 14 {
        assert(POWERS[14] == 19 && POWERS[15] == 38);
    } else if d == 15 {
        assert(POWERS[15] == 38 && POWERS[16] == 76);
    } else if d == 16 {
        assert(POWERS[16] == 76 && POWERS[17] == 152);
    } else if d == 17 {
        assert(POWERS[17] == 152 && POWERS[18] == 45);
    } else if d == 18 {
        assert(POWERS[18] == 45 && POWERS[19] == 90);
    } else if d == 19 {
        assert(POWERS[19] == 90 && POWERS[20] == 180);
    } else if d == 20 {
        assert(POWERS[20] == 180 && POWERS[21] == 117);
    } else if d == 21 {
        assert(POWERS[21] == 117 && POWERS[22] == 234);
    } else if d == 22 {
        assert(POWERS[22] == 234 && POWERS[23] == 201);
    } else if d == 23 {
        assert(POWERS[23] == 201 && POWERS[24] == 143);
    } else if d == 24 {
        assert(POWERS[24] == 143 && POWERS[25] == 3);
    } else if d == 25 {
        assert(POWERS[25] == 3 && POWERS[26] == 6);
    } else if d == 26 {
        assert(POWERS[26] == 6 && POWERS[27] == 12);
    } else if d == 27 {
        assert(POWERS[27] == 12 && POWERS[28] == 24);
    } else if d == 28 {
        assert(POWERS[28] == 24 && POWERS[29] == 48);
    } else if d == 29 {
        assert(POWERS[29] == 48 && POWERS[30] == 96);
    } else if d == 30 {
        assert(POWERS[30] == 96 && POWERS[31] == 192);
    } else if d == 31 {
        assert(POWERS[31] == 192 && POWERS[32] == 157);
    } else if d == 32 {
        assert(POWERS[32] == 157 && POWERS[33] == 39);
    } else if d == 33 {
        assert(POWERS[33] == 39 && POWERS[34] == 78);
    } else if d == 34 {
        assert(POWERS[34] == 78 && POWERS[35] == 156);
    } else if d == 35 {
        assert(POWERS[35] == 156 && POWERS[36] == 37);
    } else if d == 36 {
        assert(POWERS[36] == 37 && POWERS[37] == 74);
    } else if d == 37 {
        assert(POWERS[37] == 74 && POWERS[38] == 148);
    } else if d == 38 {
        assert(POWERS[38] == 148 && POWERS[39] == 53);
    } else if d == 39 {
        assert(POWERS[39] == 53 && POWERS[40] == 106);
    } else if d == 40 {
        assert(POWERS[40] == 106 && POWERS[41] == 212);
    } else if d == 41 {
        assert(POWERS[41] == 212 && POWERS[42] == 181);
    } else if d == 42 {
        assert(POWERS[42] == 181 && POWERS[43] == 119);
    } else if d == 43 {
        assert(POWERS[43] == 119 && POWERS[44] == 238);
    } else if d == 44 {
        assert(POWERS[44] == 238 && POWERS[45] == 193);
    } else if d == 45 {
        assert(POWERS[45] == 193 && POWERS[46] == 159);
    } else if d == 46 {
        assert(POWERS[46] == 159 && POWERS[47] == 35);
    } else if d == 47 {
        assert(POWERS[47] == 35 && POWERS[48] == 70);
    } else if d == 48 {
        assert(POWERS[48] == 70 && POWERS[49] == 140);
    } else if d == 49 {
        assert(POWERS[49] == 140 && POWERS[50] == 5);
    } else if d == 50 {
        assert(POWERS[50] == 5 && POWERS[51] == 10);
    } else if d == 51 {
        assert(POWERS[51] == 10 && POWERS[52] == 20);
    } else if d == 52 {
        assert(POWERS[52] == 20 && POWERS[53] == 40);
    } else if d == 53 {
        assert(POWERS[53] == 40 && POWERS[54] == 80);
    } else if d == 54 {
        assert(POWERS[54] == 80 && POWERS[55] == 160);
    } else if d == 55 {
        assert(POWERS[55] == 160 && POWERS[56] == 93);
    } else if d == 56 {
        assert(POWERS[56] == 93 && POWERS[57] == 186);
    } else if d == 57 {
        assert(POWERS[57] == 186 && POWERS[58] == 105);
    } else if d == 58 {
        assert(POWERS[58] == 105 && POWERS[59] == 210);
    } else if d == 59 {
        assert(POWERS[59] == 210 && POWERS[60] == 185);
    } else if d == 60 {
        assert(POWERS[60] == 185 && POWERS[61] == 111);
    } else if d == 61 {
        assert(POWERS[61] == 111 && POWERS[62] == 222);
    } else if d == 62 {
        assert(POWERS[62] == 222 && POWERS[63] == 161);
    } else if d == 63 {
        assert(POWERS[63] == 161 && POWERS[64] == 95);
    } else if d == 64 {
        assert(POWERS[64] == 95 && POWERS[65] == 190);
    } else if d == 65 {
        assert(POWERS[65] == 190 && POWERS[66] == 97);
    } else if d == 66 {
        assert(POWERS[66] == 97 && POWERS[67] == 194);
    } else if d == 67 {
        assert(POWERS[67] == 194 && POWERS[68] == 153);
    } else if d == 68 {
        assert(POWERS[68] == 153 && POWERS[69] == 47);
    } else if d == 69 {
        assert(POWERS[69] == 47 && POWERS[70] == 94);
    } else if d == 70 {
        assert(POWERS[70] == 94 && POWERS[71] == 188);
    } else if d == 71 {
        assert(POWERS[71] == 188 && POWERS[72] == 101);
    } else if d == 72 {
        assert(POWERS[72] == 101 && POWERS[73] == 202);
    } else if d == 73 {
        assert(POWERS[73] == 202 && POWERS[74] == 137);
    } else if d == 74 {
        assert(POWERS[74] == 137 && POWERS[75] == 15);
    } else if d == 75 {
        assert(POWERS[75] == 15 && POWERS[76] == 30);
    } else if d == 76 {
        assert(POWERS[76] == 30 && POWERS[77] == 60);
    } else if d == 77 {
        assert(POWERS[77] == 60 && POWERS[78] == 120);
    } else if d == 78 {
        assert(POWERS[78] == 120 && POWERS[79] == 240);
    } else if d == 79 {
        assert(POWERS[79] == 240 && POWERS[80] == 253);
    } else if d == 80 {
        assert(POWERS[80] == 253 && POWERS[81] == 231);
    } else if d == 81 {
        assert(POWERS[81] == 231 && POWERS[82] == 211);
    } else if d == 82 {
        assert(POWERS[82] == 211 && POWERS[83] == 187);
    } else if d == 83 {
        assert(POWERS[83] == 187 && POWERS[84] == 107);
    } else if d == 84 {
        assert(POWERS[84] == 107 && POWERS[85] == 214);
    } else if d == 85 {
        assert(POWERS[85] == 214 && POWERS[86] == 177);
    } else if d == 86 {
        assert(POWERS[86] == 177 && POWERS[87] == 127);
    } else if d == 87 {
        assert(POWERS[87] == 127 && POWERS[88] == 254);
    } else if d == 88 {
        assert(POWERS[88] == 254 && POWERS[89] == 225);
    } else if d == 89 {
        assert(POWERS[89] == 225 && POWERS[90] == 223);
    } else if d == 90 {
        assert(POWERS[90] == 223 && POWERS[91] == 163);
    } else if d == 91 {
        assert(POWERS[91] == 163 && POWERS[92] == 91);
    } else if d == 92 {
        assert(POWERS[92] == 91 && POWERS[93] == 182);
    } else if d == 93 {
        assert(POWERS[93] == 182 && POWERS[94] == 113);
    } else if d == 94 {
        assert(POWERS[94] == 113 && POWERS[95] == 226);
    } else if d == 95 {
        assert(POWERS[95] == 226 && POWERS[96] == 217);
    } else if d == 96 {
        assert(POWERS[96] == 217 && POWERS[97] == 175);
    } else if d == 97 {
        assert(POWERS[97] == 175 && POWERS[98] == 67);
    } else if d == 98 {
        assert(POWERS[98] == 67 && POWERS[99] == 134);
    } else if d == 99 {
        assert(POWERS[99] == 134 && POWERS[100] == 17);
    } else if d == 100 {
        assert(POWERS[100] == 17 && POWERS[101] == 34);
    } else if d == 101 {
        assert(POWERS[101] == 34 && POWERS[102] == 68);
    } else if d == 102 {
        assert(POWERS[102] == 68 && POWERS[103] == 136);
    } else if d == 103 {
        assert(POWERS[103] == 136 && POWERS[104] == 13);
    } else if d == 104 {
        assert(POWERS[104] == 13 && POWERS[105] == 26);
    } else if d == 105 {
        assert(POWERS[105] == 26 && POWERS[106] == 52);
    } else if d == 106 {
        assert(POWERS[106] == 52 && POWERS[107] == 104);
    } else if d == 107 {
        assert(POWERS[107] == 104 && POWERS[108] == 208);
    } else if d == 108 {
        assert(POWERS[108] == 208 && POWERS[109] == 189);
    } else if d == 109 {
        assert(POWERS[109] == 189 && POWERS[110] == 103);
    } else if d == 110 {
        assert(POWERS[110] == 103 && POWERS[111] == 206);
    } else if d == 111 {
        assert(POWERS[111] == 206 && POWERS[112] == 129);
    } else if d == 112 {
        assert(POWERS[112] == 129 && POWERS[113] == 31);
    } else if d == 113 {
        assert(POWERS[113] == 31 && POWERS[114] == 62);
    } else if d == 114 {
        assert(POWERS[114] == 62 && POWERS[115] == 124);
    } else if d == 115 {
        assert(POWERS[115] == 124 && POWERS[116] == 248);
    } else if d == 116 {
        assert(POWERS[116] == 248 && POWERS[117] == 237);
    } else if d == 117 {
        assert(POWERS[117] == 237 && POWERS[118] == 199);
    } else if d == 118 {
        assert(POWERS[118] == 199 && POWERS[119] == 147);
    } else if d == 119 {
        assert(POWERS[119] == 147 && POWERS[120] == 59);
    } else if d == 120 {
        assert(POWERS[120] == 59 && POWERS[121] == 118);
    } else if d == 121 {
        assert(POWERS[121] == 118 && POWERS[122] == 236);
    } else if d == 122 {
        assert(POWERS[122] == 236 && POWERS[123] == 197);
    } else if d == 123 {
        assert(POWERS[123] == 197 && POWERS[124] == 151);
    } else if d == 124 {
        assert(POWERS[124] == 151 && POWERS[125] == 51);
    } else if d == 125 {
        assert(POWERS[125] == 51 && POWERS[126] == 102);
    } else if d == 126 {
        assert(POWERS[126] == 102 && POWERS[127] == 204);
    } else if d == 127 {
        assert(POWERS[127] == 204 && POWERS[128] == 133);
    } else if d == 128 {
        assert(POWERS[128] == 133 && POWERS[129] == 23);
    } else if d == 129 {
        assert(POWERS[129] == 23 && POWERS[130] == 46);
    } else if d == 130 {
        assert(POWERS[130] == 46 && POWERS[131] == 92);
    } else if d == 131 {
        assert(POWERS[131] == 92 && POWERS[132] == 184);
    } else if d == 132 {
        assert(POWERS[132] == 184 && POWERS[133] == 109);
    } else if d == 133 {
        assert(POWERS[133] == 109 && POWERS[134] == 218);
    } else if d == 134 {
        assert(POWERS[134] == 218 && POWERS[135] == 169);
    } else if d == 135 {
        assert(POWERS[135] == 169 && POWERS[136] == 79);
    } else if d == 136 {
        assert(POWERS[136] == 79 && POWERS[137] == 158);
    } else if d == 137 {
        assert(POWERS[137] == 158 && POWERS[138] == 33);
    } else if d == 138 {
        assert(POWERS[138] == 33 && POWERS[139] == 66);
    } else if d == 139 {
        assert(POWERS[139] == 66 && POWERS[140] == 132);
    } else if d == 140 {
        assert(POWERS[140] == 132 && POWERS[141] == 21);
    } else if d == 141 {
        assert(POWERS[141] == 21 && POWERS[142] == 42);
    } else if d == 142 {
        assert(POWERS[142] == 42 && POWERS[143] == 84);
    } else if d == 143 {
        assert(POWERS[143] == 84 && POWERS[144] == 168);
    } else if d == 144 {
        assert(POWERS[144] == 168 && POWERS[145] == 77);
    } else if d == 145 {
        assert(POWERS[145] == 77 && POWERS[146] == 154);
    } else if d == 146 {
        assert(POWERS[146] == 154 && POWERS[147] == 41);
    } else if d == 147 {
        assert(POWERS[147] == 41 && POWERS[148] == 82);
    } else if d == 148 {
        assert(POWERS[148] == 82 && POWERS[149] == 164);
    } else if d == 149 {
        assert(POWERS[149] == 164 && POWERS[150] == 85);
    } else if d == 150 {
        assert(POWERS[150] == 85 && POWERS[151] == 170);
    } else if d == 151 {
        assert(POWERS[151] == 170 && POWERS[152] == 73);
    } else if d == 152 {
        assert(POWERS[152] == 73 && POWERS[153] == 146);
    } else if d == 153 {
        assert(POWERS[153] == 146 && POWERS[154] == 57);
    } else if d == 154 {
        assert(POWERS[154] == 57 && POWERS[155] == 114);
    } else if d == 155 {
        assert(POWERS[155] == 114 && POWERS[156] == 228);
    } else if d == 156 {
        assert(POWERS[156] == 228 && POWERS[157] == 213);
    } else if d == 157 {
        assert(POWERS[157] == 213 && POWERS[158] == 183);
    } else if d == 158 {
        assert(POWERS[158] == 183 && POWERS[159] == 115);
    } else if d == 159 {
        assert(POWERS[159] == 115 && POWERS[160] == 230);
    } else if d == 160 {
        assert(POWERS[160] == 230 && POWERS[161] == 209);
    } else if d == 161 {
        assert(POWERS[161] == 209 && POWERS[162] == 191);
    } else if d == 162 {
        assert(POWERS[162] == 191 && POWERS[163] == 99);
    } else if d == 163 {
        assert(POWERS[163] == 99 && POWERS[164] == 198);
    } else if d == 164 {
        assert(POWERS[164] == 198 && POWERS[165] == 145);
    } else if d == 165 {
        assert(POWERS[165] == 145 && POWERS[166] == 63);
    } else if d == 166 {
        assert(POWERS[166] == 63 && POWERS[167] == 126);
    } else if d == 167 {
        assert(POWERS[167] == 126 && POWERS[168] == 252);
    } else if d == 168 {
        assert(POWERS[168] == 252 && POWERS[169] == 229);
    } else if d == 169 {
        assert(POWERS[169] == 229 && POWERS[170] == 215);
    } else if d == 170 {
        assert(POWERS[170] == 215 && POWERS[171] == 179);
    } else if d == 171 {
        assert(POWERS[171] == 179 && POWERS[172] == 123);
    } else if d == 172 {
        assert(POWERS[172] == 123 && POWERS[173] == 246);
    } else if d == 173 {
        assert(POWERS[173] == 246 && POWERS[174] == 241);
    } else if d == 174 {
        assert(POWERS[174] == 241 && POWERS[175] == 255);
    } else if d == 175 {
        assert(POWERS[175] == 255 && POWERS[176] == 227);
    } else if d == 176 {
        assert(POWERS[176] == 227 && POWERS[177] == 219);
    } else if d == 177 {
        assert(POWERS[177] == 219 && POWERS[178] == 171);
    } else if d == 178 {
        assert(POWERS[178] == 171 && POWERS[179] == 75);
    } else if d == 179 {
        assert(POWERS[179] == 75 && POWERS[180] == 150);
    } else if d == 180 {
        assert(POWERS[180] == 150 && POWERS[181] == 49);
    } else if d == 181 {
        assert(POWERS[181] == 49 && POWERS[182] == 98);
    } else if d == 182 {
        assert(POWERS[182] == 98 && POWERS[183] == 196);
    } else if d == 183 {
        assert(POWERS[183] == 196 && POWERS[184] == 149);
    } else if d == 184 {
        assert(POWERS[184] == 149 && POWERS[185] == 55);
    } else if d == 185 {
        assert(POWERS[185] == 55 && POWERS[186] == 110);
    } else if d == 186 {
        assert(POWERS[186] == 110 && POWERS[187] == 220);
    } else if d == 187 {
        assert(POWERS[187] == 220 && POWERS[188] == 165);
    } else if d == 188 {
        assert(POWERS[188] == 165 && POWERS[189] == 87);
    } else if d == 189 {
        assert(POWERS[189] == 87 && POWERS[190] == 174);
    } else if d == 190 {
        assert(POWERS[190] == 174 && POWERS[191] == 65);
    } else if d == 191 {
        assert(POWERS[191] == 65 && POWERS[192] == 130);
    } else if d == 192 {
        assert(POWERS[192] == 130 && POWERS[193] == 25);
    } else if d == 193 {
        assert(POWERS[193] == 25 && POWERS[194] == 50);
    } else if d == 194 {
        assert(POWERS[194] == 50 && POWERS[195] == 100);
    } else if d == 195 {
        assert(POWERS[195] == 100 && POWERS[196] == 200);
    } else if d == 196 {
        assert(POWERS[196] == 200 && POWERS[197] == 141);
    } else if d == 197 {
        assert(POWERS[197] == 141 && POWERS[198] == 7);
    } else if d == 198 {
        assert(POWERS[198] == 7 && POWERS[199] == 14);
    } else if d == 199 {
        assert(POWERS[199] == 14 && POWERS[200] == 28);
    } else if d == 200 {
        assert(POWERS[200] == 28 && POWERS[201] == 56);
    } else if d == 201 {
        assert(POWERS[201] == 56 && POWERS[202] == 112);
    } else if d == 202 {
        assert(POWERS[202] == 112 && POWERS[203] == 224);
    } else if d == 203 {
        assert(POWERS[203] == 224 && POWERS[204] == 221);
    } else if d == 204 {
        assert(POWERS[204] == 221 && POWERS[205] == 167);
    } else if d == 205 {
        assert(POWERS[205] == 167 && POWERS[206] == 83);
    } else if d == 206 {
        assert(POWERS[206] == 83 && POWERS[207] == 166);
    } else if d == 207 {
        assert(POWERS[207] == 166 && POWERS[208] == 81);
    } else if d == 208 {
        assert(POWERS[208] == 81 && POWERS[209] == 162);
    } else if d == 209 {
        assert(POWERS[209] == 162 && POWERS[210] == 89);
    } else if d == 210 {
        assert(POWERS[210] == 89 && POWERS[211] == 178);
    } else if d == 211 {
        assert(POWERS[211] == 178 && POWERS[212] == 121);
    } else if d == 212 {
        assert(POWERS[212] == 121 && POWERS[213] == 242);
    } else if d == 213 {
        assert(POWERS[213] == 242 && POWERS[214] == 249);
    } else if d == 214 {
        assert(POWERS[214] == 249 && POWERS[215] == 239);
    } else if d == 215 {
        assert(POWERS[215] == 239 && POWERS[216] == 195);
    } else if d == 216 {
        assert(POWERS[216] == 195 && POWERS[217] == 155);
    } else if d == 217 {
        assert(POWERS[217] == 155 && POWERS[218] == 43);
    } else if d == 218 {
        assert(POWERS[218] == 43 && POWERS[219] == 86);
    } else if d == 219 {
        assert(POWERS[219] == 86 && POWERS[220] == 172);
    } else if d == 220 {
        assert(POWERS[220] == 172 && POWERS[221] == 69);
    } else if d == 221 {
        assert(POWERS[221] == 69 && POWERS[222] == 138);
    } else if d == 222 {
        assert(POWERS[222] == 138 && POWERS[223] == 9);
    } else if d == 223 {
        assert(POWERS[223] == 9 && POWERS[224] == 18);
    } else if d == 224 {
        assert(POWERS[224] == 18 && POWERS[225] == 36);
    } else if d == 225 {
        assert(POWERS[225] == 36 && POWERS[226] == 72);
    } else if d == 226 {
        assert(POWERS[226] == 72 && POWERS[227] == 144);
    } else if d == 227 {
        assert(POWERS[227] == 144 && POWERS[228] == 61);
    } else if d == 228 {
        assert(POWERS[228] == 61 && POWERS[229] == 122);
    } else if d == 229 {
        assert(POWERS[229] == 122 && POWERS[230] == 244);
    } else if d == 230 {
        assert(POWERS[230] == 244 && POWERS[231] == 245);
    } else if d == 231 {
        assert(POWERS[231] == 245 && POWERS[232] == 247);
    } else if d == 232 {
        assert(POWERS[232] == 247 && POWERS[233] == 243);
    } else if d == 233 {
        assert(POWERS[233] == 243 && POWERS[234] == 251);
    } else if d == 234 {
        assert(POWERS[234] == 251 && POWERS[235] == 235);
    } else if d == 235 {
        assert(POWERS[235] == 235 && POWERS[236] == 203);
    } else if d == 236 {
        assert(POWERS[236] == 203 && POWERS[237] == 139);
    } else if d == 237 {
        assert(POWERS[237] == 139 && POWERS[238] == 11);
    } else if d == 238 {
        assert(POWERS[238] == 11 && POWERS[239] == 22);
    } else if d == 239 {
        assert(POWERS[239] == 22 && POWERS[240] == 44);
    } else if d == 240 {
        assert(POWERS[240] == 44 && POWERS[241] == 88);
    } else if d == 241 {
        assert(POWERS[241] == 88 && POWERS[242] == 176);
    } else if d == 242 {
        assert(POWERS[242] == 176 && POWERS[243] == 125);
    } else if d == 243 {
        assert(POWERS[243] == 125 && POWERS[244] == 250);
    } else if d == 244 {
        assert(POWERS[244] == 250 && POWERS[245] == 233);
    } else if d == 245 {
        assert(POWERS[245] == 233 && POWERS[246] == 207);
    } else if d == 246 {
        assert(POWERS[246] == 207 && POWERS[247] == 131);
    } else if d == 247 {
        assert(POWERS[247] == 131 && POWERS[248] == 27);
    } else if d == 248 {
        assert(POWERS[248] == 27 && POWERS[249] == 54);
    } else if d == 249 {
        assert(POWERS[249] == 54 && POWERS[250] == 108);
    } else if d == 250 {
        assert(POWERS[250] == 108 && POWERS[251] == 216);
    } else if d == 251 {
        assert(POWERS[251] == 216 && POWERS[252] == 173);
    } else if d == 252 {
        assert(POWERS[252] == 173 && POWERS[253] == 71);
    } else if d == 253 {
        assert(POWERS[253] == 71 && POWERS[254] == 142);
    }
}

/// The table of powers holds the powers of 2.
pub proof fn lemma_powers(d: nat)
    requires
        d < 255,
    ensures
        gf_exp(d) == POWERS[d as int],
    decreases d,
{
    if d > 0 {
        lemma_powers((d - 1) as nat);
        lemma_power_step(d - 1);
    }
}

proof fn lemma_logarithms(d: int)
    requires
        0 <= d < 255,
    ensures
        LOGARITHMS[POWERS[d] as int] == d,
        POWERS[d] != 0,
{
}

/// The first 255 powers of 2 differ from each other and from zero.
pub proof fn lemma_powers_differ(i: nat, j: nat)
    requires
        i < 255,
        j < 255,
        i != j,
    ensures
        gf_exp(i) != gf_exp(j),
        gf_exp(i) != 0,
{
    lemma_powers(i);
    lemma_powers(j);
    lemma_logarithms(i as int);
    lemma_logarithms(j as int);
}

/// Multiplying by `x` is multiplying by 2.
pub proof fn lemma_times_x_is_mul(a: u8)
    ensures
        times_x(a) == gf_mul(a, 2),
{
    lemma_mul_one(a);
    assert(gf_mul(a, 2) == times_x(gf_mul(a, 1)));
}

/// The power of a sum is the product of the powers.
pub proof fn lemma_exp_sum(a: nat, b: nat)
    ensures
        gf_exp(a + b) == gf_mul(gf_exp(a), gf_exp(b)),
    decreases b,
{
    if b == 0 {
        lemma_mul_one(gf_exp(a));
    } else {
        let c = (b - 1) as nat;
        lemma_exp_sum(a, c);
        lemma_times_x_is_mul(gf_exp(a + c));
        lemma_times_x_is_mul(gf_exp(c));
        lemma_mul_associates(gf_exp(a), gf_exp(c), 2);
    }
}

/// One step of a multiplication: what was gathered is multiplied by `x`,
/// and the factor `a` is added where the next bit of the other factor is
/// set.
pub open spec fn step(z: u8, a: u8, bit: bool) -> u8 {
    if bit {
        times_x(z) ^ a
    } else {
        times_x(z)
    }
}

proof fn lemma_chain_zero(
    a: u8,
    b: u8,
    z1: u8,
    z2: u8,
    z3: u8,
    z4: u8,
    z5: u8,
    z6: u8,
    z7: u8,
    z8: u8,
)
    by (bit_vector)
    requires
        z1 == step(0, a, b & 128 != 0),
        z2 == step(z1, a, b & 64 != 0),
        z3 == step(z2, a, b & 32 != 0),
        z4 == step(z3, a, b & 16 != 0),
        z5 == step(z4, a, b & 8 != 0),
        z6 == step(z5, a, b & 4 != 0),
        z7 == step(z6, a, b & 2 != 0),
        z8 == step(z7, a, b & 1 != 0),
        z8 == 0,
    ensures
        a == 0 || b == 0,
{
}

proof fn lemma_mul_step(a: u8, b: u8)
    ensures
        gf_mul(a, b) == step(gf_mul(a, b / 2), a, b % 2 == 1),
{
}

/// A product is zero only where a factor is zero.
pub proof fn lemma_no_zero_divisors(a: u8, b: u8)
    requires
        gf_mul(a, b) == 0,
    ensures
        a == 0 || b == 0,
{
    let b1: u8 = b / 2;
    let b2: u8 = b1 / 2;
    let b3: u8 = b2 / 2;
    let b4: u8 = b3 / 2;
    let b5: u8 = b4 / 2;
    let b6: u8 = b5 / 2;
    let b7: u8 = b6 / 2;
    assert((b & 1 != 0) == (b % 2 == 1) && (b & 2 != 0) == (b1 % 2 == 1) && (b & 4 != 0) == (b2 % 2
        == 1) && (b & 8 != 0) == (b3 % 2 == 1) && (b & 16 != 0) == (b4 % 2 == 1) && (b & 32 != 0)
        == (b5 % 2 == 1) && (b & 64 != 0) == (b6 % 2 == 1) && (b & 128 != 0) == (b7 % 2 == 1) && b7
        / 2 == 0) by (bit_vector)
        requires
            b1 == b / 2,
            b2 == b1 / 2,
            b3 == b2 / 2,
            b4 == b3 / 2,
            b5 == b4 / 2,
            b6 == b5 / 2,
            b7 == b6 / 2,
    ;
    let z1 = gf_mul(a, b7);
    let z2 = gf_mul(a, b6);
    let z3 = gf_mul(a, b5);
    let z4 = gf_mul(a, b4);
    let z5 = gf_mul(a, b3);
    let z6 = gf_mul(a, b2);
    let z7 = gf_mul(a, b1);
    let z8 = gf_mul(a, b);
    assert(gf_mul(a, 0) == 0);
    lemma_mul_step(a, b7);
    lemma_mul_step(a, b6);
    lemma_mul_step(a, b5);
    lemma_mul_step(a, b4);
    lemma_mul_step(a, b3);
    lemma_mul_step(a, b2);
    lemma_mul_step(a, b1);
    lemma_mul_step(a, b);
    lemma_chain_zero(a, b, z1, z2, z3, z4, z5, z6, z7, z8);
}

} // verus!
