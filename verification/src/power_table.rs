//! Powers of the multiplier, modulo the modulus, at the exponents that decide
//! its order: the number of nonzero residues, and that number divided by each
//! of its prime factors. Each is reached by squarings and products of values
//! already reached; nothing here is found by search.

use vstd::prelude::*;

verus! {

use crate::lehmer::MODULUS;
use crate::power::{lemma_power_add, lemma_power_base, mul_mod, power};

/// One reduced product of two known powers: the power at the sum of their
/// exponents.
proof fn lemma_power_product(i: nat, j: nat, x: nat, y: nat, z: nat)
    requires
        power(i) == x,
        power(j) == y,
        (x * y) % (MODULUS as nat) == z,
    ensures
        power(i + j) == z,
{
    reveal(mul_mod);
    lemma_power_add(i, j);
}

/// The multiplier squared again and again: its powers at 2^0 to 2^8.
proof fn lemma_squares_to_2_8()
    ensures
        power(1) == 16807,
        power(2) == 282475249,
        power(4) == 984943658,
        power(8) == 1457850878,
        power(16) == 1137522503,
        power(32) == 1636807826,
        power(64) == 685118024,
        power(128) == 515204530,
        power(256) == 897054849,
{
    lemma_power_base();
    lemma_power_product(1, 1, 16807, 16807, 282475249);
    lemma_power_product(2, 2, 282475249, 282475249, 984943658);
    lemma_power_product(4, 4, 984943658, 984943658, 1457850878);
    lemma_power_product(8, 8, 1457850878, 1457850878, 1137522503);
    lemma_power_product(16, 16, 1137522503, 1137522503, 1636807826);
    lemma_power_product(32, 32, 1636807826, 1636807826, 685118024);
    lemma_power_product(64, 64, 685118024, 685118024, 515204530);
    lemma_power_product(128, 128, 515204530, 515204530, 897054849);
}

/// The multiplier squared again and again: its powers at 2^8 to 2^16.
proof fn lemma_squares_to_2_16()
    ensures
        power(256) == 897054849,
        power(512) == 2038299453,
        power(1024) == 1836275591,
        power(2048) == 349037107,
        power(4096) == 149796865,
        power(8192) == 1186652285,
        power(16384) == 2106880871,
        power(32768) == 877809922,
        power(65536) == 1682791109,
{
    lemma_squares_to_2_8();
    lemma_power_product(256, 256, 897054849, 897054849, 2038299453);
    lemma_power_product(512, 512, 2038299453, 2038299453, 1836275591);
    lemma_power_product(1024, 1024, 1836275591, 1836275591, 349037107);
    lemma_power_product(2048, 2048, 349037107, 349037107, 149796865);
    lemma_power_product(4096, 4096, 149796865, 149796865, 1186652285);
    lemma_power_product(8192, 8192, 1186652285, 1186652285, 2106880871);
    lemma_power_product(16384, 16384, 2106880871, 2106880871, 877809922);
    lemma_power_product(32768, 32768, 877809922, 877809922, 1682791109);
}

/// The multiplier squared again and again: its powers at 2^16 to 2^24.
proof fn lemma_squares_to_2_24()
    ensures
        power(65536) == 1682791109,
        power(131072) == 1900685356,
        power(262144) == 2080563572,
        power(524288) == 612544882,
        power(1048576) == 1295048709,
        power(2097152) == 1987420232,
        power(4194304) == 868966365,
        power(8388608) == 1331238991,
        power(16777216) == 1550655590,
{
    lemma_squares_to_2_16();
    lemma_power_product(65536, 65536, 1682791109, 1682791109, 1900685356);
    lemma_power_product(131072, 131072, 1900685356, 1900685356, 2080563572);
    lemma_power_product(262144, 262144, 2080563572, 2080563572, 612544882);
    lemma_power_product(524288, 524288, 612544882, 612544882, 1295048709);
    lemma_power_product(1048576, 1048576, 1295048709, 1295048709, 1987420232);
    lemma_power_product(2097152, 2097152, 1987420232, 1987420232, 868966365);
    lemma_power_product(4194304, 4194304, 868966365, 868966365, 1331238991);
    lemma_power_product(8388608, 8388608, 1331238991, 1331238991, 1550655590);
}

/// The multiplier squared again and again: its powers at 2^24 to 2^30.
proof fn lemma_squares_to_2_30()
    ensures
        power(16777216) == 1550655590,
        power(33554432) == 766698560,
        power(67108864) == 1154667137,
        power(134217728) == 901595110,
        power(268435456) == 1008653149,
        power(536870912) == 1821072732,
        power(1073741824) == 2147466840,
{
    lemma_squares_to_2_24();
    lemma_power_product(16777216, 16777216, 1550655590, 1550655590, 766698560);
    lemma_power_product(33554432, 33554432, 766698560, 766698560, 1154667137);
    lemma_power_product(67108864, 67108864, 1154667137, 1154667137, 901595110);
    lemma_power_product(134217728, 134217728, 901595110, 901595110, 1008653149);
    lemma_power_product(268435456, 268435456, 1008653149, 1008653149, 1821072732);
    lemma_power_product(536870912, 536870912, 1821072732, 1821072732, 2147466840);
}

/// The power at the number of nonzero residues divided by 2, which is 1073741823.
pub proof fn lemma_power_at_period_over_2()
    ensures
        power(1073741823) == 2147483646,
{
    lemma_squares_to_2_8();
    lemma_squares_to_2_16();
    lemma_squares_to_2_24();
    lemma_squares_to_2_30();
    lemma_power_product(1, 2, 16807, 282475249, 1622650073);
    lemma_power_product(3, 4, 1622650073, 984943658, 101027544);
    lemma_power_product(7, 8, 101027544, 1457850878, 114807987);
    lemma_power_product(15, 16, 114807987, 1137522503, 1954899097);
    lemma_power_product(31, 32, 1954899097, 1636807826, 1108728549);
    lemma_power_product(63, 64, 1108728549, 685118024, 2014119113);
    lemma_power_product(127, 128, 2014119113, 515204530, 685428651);
    lemma_power_product(255, 256, 685428651, 897054849, 268317158);
    lemma_power_product(511, 512, 268317158, 2038299453, 754609818);
    lemma_power_product(1023, 1024, 754609818, 1836275591, 994734886);
    lemma_power_product(2047, 2048, 994734886, 349037107, 1083014291);
    lemma_power_product(4095, 4096, 1083014291, 149796865, 1655627552);
    lemma_power_product(8191, 8192, 1655627552, 1186652285, 1181132756);
    lemma_power_product(16383, 16384, 1181132756, 2106880871, 1079224412);
    lemma_power_product(32767, 32768, 1079224412, 877809922, 816826219);
    lemma_power_product(65535, 65536, 816826219, 1682791109, 817222503);
    lemma_power_product(131071, 131072, 817222503, 1900685356, 103492285);
    lemma_power_product(262143, 262144, 103492285, 2080563572, 596864917);
    lemma_power_product(524287, 524288, 596864917, 612544882, 1872592842);
    lemma_power_product(1048575, 1048576, 1872592842, 1295048709, 2031328313);
    lemma_power_product(2097151, 2097152, 2031328313, 1987420232, 1799481238);
    lemma_power_product(4194303, 4194304, 1799481238, 868966365, 1043219357);
    lemma_power_product(8388607, 8388608, 1043219357, 1331238991, 566127400);
    lemma_power_product(16777215, 16777216, 566127400, 1550655590, 1470714790);
    lemma_power_product(33554431, 33554432, 1470714790, 766698560, 797756594);
    lemma_power_product(67108863, 67108864, 797756594, 1154667137, 1098008483);
    lemma_power_product(134217727, 134217728, 1098008483, 901595110, 706645637);
    lemma_power_product(268435455, 268435456, 706645637, 1008653149, 1877990613);
    lemma_power_product(536870911, 536870912, 1877990613, 1821072732, 2147483646);
}

/// The power at the number of nonzero residues divided by 3, which is 715827882.
pub proof fn lemma_power_at_period_over_3()
    ensures
        power(715827882) == 634005911,
{
    lemma_squares_to_2_8();
    lemma_squares_to_2_16();
    lemma_squares_to_2_24();
    lemma_squares_to_2_30();
    lemma_power_product(2, 8, 282475249, 1457850878, 2007237709);
    lemma_power_product(10, 32, 2007237709, 1636807826, 2110010672);
    lemma_power_product(42, 128, 2110010672, 515204530, 881140534);
    lemma_power_product(170, 512, 881140534, 2038299453, 1987502657);
    lemma_power_product(682, 2048, 1987502657, 349037107, 1656394764);
    lemma_power_product(2730, 8192, 1656394764, 1186652285, 99284761);
    lemma_power_product(10922, 32768, 99284761, 877809922, 544348633);
    lemma_power_product(43690, 131072, 544348633, 1900685356, 1175969859);
    lemma_power_product(174762, 524288, 1175969859, 612544882, 448035156);
    lemma_power_product(699050, 2097152, 448035156, 1987420232, 313625057);
    lemma_power_product(2796202, 8388608, 313625057, 1331238991, 1401305734);
    lemma_power_product(11184810, 33554432, 1401305734, 766698560, 1252779437);
    lemma_power_product(44739242, 134217728, 1252779437, 901595110, 1695056031);
    lemma_power_product(178956970, 536870912, 1695056031, 1821072732, 634005911);
}

/// The power at the number of nonzero residues divided by 7, which is 306783378.
pub proof fn lemma_power_at_period_over_7()
    ensures
        power(306783378) == 1600955193,
{
    lemma_squares_to_2_8();
    lemma_squares_to_2_16();
    lemma_squares_to_2_24();
    lemma_squares_to_2_30();
    lemma_power_product(2, 16, 282475249, 1137522503, 16531729);
    lemma_power_product(18, 128, 16531729, 515204530, 877819790);
    lemma_power_product(146, 1024, 877819790, 1836275591, 1973792143);
    lemma_power_product(1170, 8192, 1973792143, 1186652285, 1588280530);
    lemma_power_product(9362, 65536, 1588280530, 1682791109, 713072451);
    lemma_power_product(74898, 524288, 713072451, 612544882, 864669998);
    lemma_power_product(599186, 4194304, 864669998, 868966365, 1089368889);
    lemma_power_product(4793490, 33554432, 1089368889, 766698560, 1410082339);
    lemma_power_product(38347922, 268435456, 1410082339, 1008653149, 1600955193);
}

/// The power at the number of nonzero residues divided by 11, which is 195225786.
pub proof fn lemma_power_at_period_over_11()
    ensures
        power(195225786) == 298192073,
{
    lemma_squares_to_2_8();
    lemma_squares_to_2_16();
    lemma_squares_to_2_24();
    lemma_squares_to_2_30();
    lemma_power_product(2, 8, 282475249, 1457850878, 2007237709);
    lemma_power_product(10, 16, 2007237709, 1137522503, 1131570933);
    lemma_power_product(26, 32, 1131570933, 1636807826, 1927702196);
    lemma_power_product(58, 128, 1927702196, 515204530, 462242385);
    lemma_power_product(186, 2048, 462242385, 349037107, 621222764);
    lemma_power_product(2234, 8192, 621222764, 1186652285, 1432671743);
    lemma_power_product(10426, 16384, 1432671743, 2106880871, 904341801);
    lemma_power_product(26810, 32768, 904341801, 877809922, 687791678);
    lemma_power_product(59578, 131072, 687791678, 1900685356, 515678993);
    lemma_power_product(190650, 2097152, 515678993, 1987420232, 70230534);
    lemma_power_product(2287802, 8388608, 70230534, 1331238991, 1922162627);
    lemma_power_product(10676410, 16777216, 1922162627, 1550655590, 249105855);
    lemma_power_product(27453626, 33554432, 249105855, 766698560, 765237990);
    lemma_power_product(61008058, 134217728, 765237990, 901595110, 298192073);
}

/// The power at the number of nonzero residues divided by 31, which is 69273666.
pub proof fn lemma_power_at_period_over_31()
    ensures
        power(69273666) == 16384,
{
    lemma_squares_to_2_8();
    lemma_squares_to_2_16();
    lemma_squares_to_2_24();
    lemma_squares_to_2_30();
    lemma_power_product(2, 64, 282475249, 685118024, 1060806853);
    lemma_power_product(66, 2048, 1060806853, 349037107, 111398400);
    lemma_power_product(2114, 65536, 111398400, 1682791109, 766345775);
    lemma_power_product(67650, 2097152, 766345775, 1987420232, 501934855);
    lemma_power_product(2164802, 67108864, 501934855, 1154667137, 16384);
}

/// The power at the number of nonzero residues divided by 151, which is 14221746.
pub proof fn lemma_power_at_period_over_151()
    ensures
        power(14221746) == 1013763951,
{
    lemma_squares_to_2_8();
    lemma_squares_to_2_16();
    lemma_squares_to_2_24();
    lemma_squares_to_2_30();
    lemma_power_product(2, 16, 282475249, 1137522503, 16531729);
    lemma_power_product(18, 32, 16531729, 1636807826, 937186357);
    lemma_power_product(50, 128, 937186357, 515204530, 290145159);
    lemma_power_product(178, 256, 290145159, 897054849, 2119315080);
    lemma_power_product(434, 65536, 2119315080, 1682791109, 461253127);
    lemma_power_product(65970, 524288, 461253127, 612544882, 1419975727);
    lemma_power_product(590258, 1048576, 1419975727, 1295048709, 2125667626);
    lemma_power_product(1638834, 4194304, 2125667626, 868966365, 168128469);
    lemma_power_product(5833138, 8388608, 168128469, 1331238991, 1013763951);
}

/// The power at the number of nonzero residues divided by 331, which is 6487866.
pub proof fn lemma_power_at_period_over_331()
    ensures
        power(6487866) == 759513457,
{
    lemma_squares_to_2_8();
    lemma_squares_to_2_16();
    lemma_squares_to_2_24();
    lemma_squares_to_2_30();
    lemma_power_product(2, 8, 282475249, 1457850878, 2007237709);
    lemma_power_product(10, 16, 2007237709, 1137522503, 1131570933);
    lemma_power_product(26, 32, 1131570933, 1636807826, 1927702196);
    lemma_power_product(58, 256, 1927702196, 897054849, 1262696576);
    lemma_power_product(314, 512, 1262696576, 2038299453, 895063368);
    lemma_power_product(826, 1024, 895063368, 1836275591, 2028965134);
    lemma_power_product(1850, 2048, 2028965134, 349037107, 840788275);
    lemma_power_product(3898, 4096, 840788275, 149796865, 1433401925);
    lemma_power_product(7994, 8192, 1433401925, 1186652285, 369200414);
    lemma_power_product(16186, 16384, 369200414, 2106880871, 1576225411);
    lemma_power_product(32570, 32768, 1576225411, 877809922, 1456949660);
    lemma_power_product(65338, 131072, 1456949660, 1900685356, 7693700);
    lemma_power_product(196410, 2097152, 7693700, 1987420232, 1043837591);
    lemma_power_product(2293562, 4194304, 1043837591, 868966365, 759513457);
}

/// The power at the number of nonzero residues is one: the square of the
/// power at half that number, which is the modulus less one.
pub proof fn lemma_power_at_period()
    ensures
        power(2147483646) == 1,
{
    lemma_power_at_period_over_2();
    lemma_power_product(1073741823, 1073741823, 2147483646, 2147483646, 1);
}

} // verus!
