//! The fixed generator lies in the subgroup of order `GROUP_ORDER`: its power
//! by the order is one. The proof follows the binary expansion of the order,
//! squaring (and multiplying by the generator) once per bit.

use crate::modarith::{
    lemma_pow_mod_double, lemma_pow_mod_small_exponents, modulus, mul_mod, order, pow_mod,
};
use vstd::arithmetic::div_mod::*;
use vstd::prelude::*;

verus! {

/// The generator as a mathematical integer.
pub open spec fn generator_value() -> nat {
    4
}

/// Power of the generator modulo the group modulus.
pub open spec fn gen_pow(k: nat) -> nat {
    pow_mod(generator_value(), k, modulus())
}

#[verifier::spinoff_prover]
proof fn lemma_generator_chain_0()
    requires
        pow_mod(4, 1, modulus()) == 4,
    ensures
        pow_mod(4, 127, modulus()) == 1208634089587895331,
{
    lemma_pow_mod_double(4, 1, 4, modulus());
    assert(mul_mod(4, 4, modulus()) == 16);
    assert(mul_mod(16, 4, modulus()) == 64);
    assert(pow_mod(4, 3, modulus()) == 64);
    lemma_pow_mod_double(4, 3, 64, modulus());
    assert(mul_mod(64, 64, modulus()) == 4096);
    assert(mul_mod(4096, 4, modulus()) == 16384);
    assert(pow_mod(4, 7, modulus()) == 16384);
    lemma_pow_mod_double(4, 7, 16384, modulus());
    assert(mul_mod(16384, 16384, modulus()) == 268435456);
    assert(mul_mod(268435456, 4, modulus()) == 1073741824);
    assert(pow_mod(4, 15, modulus()) == 1073741824);
    lemma_pow_mod_double(4, 15, 1073741824, modulus());
    assert(mul_mod(1073741824, 1073741824, modulus()) == 1152921504606846976);
    assert(mul_mod(1152921504606846976, 4, modulus()) == 4611686018427387904);
    assert(pow_mod(4, 31, modulus()) == 4611686018427387904);
    lemma_pow_mod_double(4, 31, 4611686018427387904, modulus());
    assert(mul_mod(4611686018427387904, 4611686018427387904, modulus()) == 1232001591453211097);
    assert(mul_mod(1232001591453211097, 4, modulus()) == 4928006365812844388);
    assert(pow_mod(4, 63, modulus()) == 4928006365812844388);
    lemma_pow_mod_double(4, 63, 4928006365812844388, modulus());
    assert(mul_mod(4928006365812844388, 4928006365812844388, modulus()) == 7195654616146973835);
    assert(mul_mod(7195654616146973835, 4, modulus()) == 1208634089587895331);
    assert(pow_mod(4, 127, modulus()) == 1208634089587895331);
}

#[verifier::spinoff_prover]
proof fn lemma_generator_chain_1()
    requires
        pow_mod(4, 127, modulus()) == 1208634089587895331,
    ensures
        pow_mod(4, 8163, modulus()) == 6877391008265606153,
{
    lemma_pow_mod_double(4, 127, 1208634089587895331, modulus());
    assert(mul_mod(1208634089587895331, 1208634089587895331, modulus()) == 7245370522622125051);
    assert(mul_mod(7245370522622125051, 4, modulus()) == 1407497715488500195);
    assert(pow_mod(4, 255, modulus()) == 1407497715488500195);
    lemma_pow_mod_double(4, 255, 1407497715488500195, modulus());
    assert(mul_mod(1407497715488500195, 1407497715488500195, modulus()) == 3884574798524920589);
    assert(pow_mod(4, 510, modulus()) == 3884574798524920589);
    lemma_pow_mod_double(4, 510, 3884574798524920589, modulus());
    assert(mul_mod(3884574798524920589, 3884574798524920589, modulus()) == 5777876477050387270);
    assert(pow_mod(4, 1020, modulus()) == 5777876477050387270);
    lemma_pow_mod_double(4, 1020, 5777876477050387270, modulus());
    assert(mul_mod(5777876477050387270, 5777876477050387270, modulus()) == 3262801582074915063);
    assert(pow_mod(4, 2040, modulus()) == 3262801582074915063);
    lemma_pow_mod_double(4, 2040, 3262801582074915063, modulus());
    assert(mul_mod(3262801582074915063, 3262801582074915063, modulus()) == 2923665605011667617);
    assert(mul_mod(2923665605011667617, 4, modulus()) == 2503334295046670465);
    assert(pow_mod(4, 4081, modulus()) == 2503334295046670465);
    lemma_pow_mod_double(4, 4081, 2503334295046670465, modulus());
    assert(mul_mod(2503334295046670465, 2503334295046670465, modulus()) == 4017179783316401539);
    assert(mul_mod(4017179783316401539, 4, modulus()) == 6877391008265606153);
    assert(pow_mod(4, 8163, modulus()) == 6877391008265606153);
}

#[verifier::spinoff_prover]
proof fn lemma_generator_chain_2()
    requires
        pow_mod(4, 8163, modulus()) == 6877391008265606153,
    ensures
        pow_mod(4, 522466, modulus()) == 2123974130626929448,
{
    lemma_pow_mod_double(4, 8163, 6877391008265606153, modulus());
    assert(mul_mod(6877391008265606153, 6877391008265606153, modulus()) == 5284116217049302876);
    assert(mul_mod(5284116217049302876, 4, modulus()) == 2753808618197211498);
    assert(pow_mod(4, 16327, modulus()) == 2753808618197211498);
    lemma_pow_mod_double(4, 16327, 2753808618197211498, modulus());
    assert(mul_mod(2753808618197211498, 2753808618197211498, modulus()) == 1661964527755447982);
    assert(pow_mod(4, 32654, modulus()) == 1661964527755447982);
    lemma_pow_mod_double(4, 32654, 1661964527755447982, modulus());
    assert(mul_mod(1661964527755447982, 1661964527755447982, modulus()) == 2089471350697429854);
    assert(pow_mod(4, 65308, modulus()) == 2089471350697429854);
    lemma_pow_mod_double(4, 65308, 2089471350697429854, modulus());
    assert(mul_mod(2089471350697429854, 2089471350697429854, modulus()) == 7818802296316742130);
    assert(pow_mod(4, 130616, modulus()) == 7818802296316742130);
    lemma_pow_mod_double(4, 130616, 7818802296316742130, modulus());
    assert(mul_mod(7818802296316742130, 7818802296316742130, modulus()) == 5250814222497157255);
    assert(mul_mod(5250814222497157255, 4, modulus()) == 2620600639988629014);
    assert(pow_mod(4, 261233, modulus()) == 2620600639988629014);
    lemma_pow_mod_double(4, 261233, 2620600639988629014, modulus());
    assert(mul_mod(2620600639988629014, 2620600639988629014, modulus()) == 2123974130626929448);
    assert(pow_mod(4, 522466, modulus()) == 2123974130626929448);
}

#[verifier::spinoff_prover]
proof fn lemma_generator_chain_3()
    requires
        pow_mod(4, 522466, modulus()) == 2123974130626929448,
    ensures
        pow_mod(4, 33437856, modulus()) == 3144113471282707905,
{
    lemma_pow_mod_double(4, 522466, 2123974130626929448, modulus());
    assert(mul_mod(2123974130626929448, 2123974130626929448, modulus()) == 5731666800731820194);
    assert(mul_mod(5731666800731820194, 4, modulus()) == 4544010952927280770);
    assert(pow_mod(4, 1044933, modulus()) == 4544010952927280770);
    lemma_pow_mod_double(4, 1044933, 4544010952927280770, modulus());
    assert(mul_mod(4544010952927280770, 4544010952927280770, modulus()) == 7089599981275737185);
    assert(pow_mod(4, 2089866, modulus()) == 7089599981275737185);
    lemma_pow_mod_double(4, 2089866, 7089599981275737185, modulus());
    assert(mul_mod(7089599981275737185, 7089599981275737185, modulus()) == 2995179064290616454);
    assert(pow_mod(4, 4179732, modulus()) == 2995179064290616454);
    lemma_pow_mod_double(4, 4179732, 2995179064290616454, modulus());
    assert(mul_mod(2995179064290616454, 2995179064290616454, modulus()) == 8376246833775139990);
    assert(pow_mod(4, 8359464, modulus()) == 8376246833775139990);
    lemma_pow_mod_double(4, 8359464, 8376246833775139990, modulus());
    assert(mul_mod(8376246833775139990, 8376246833775139990, modulus()) == 4385915377661255781);
    assert(pow_mod(4, 16718928, modulus()) == 4385915377661255781);
    lemma_pow_mod_double(4, 16718928, 4385915377661255781, modulus());
    assert(mul_mod(4385915377661255781, 4385915377661255781, modulus()) == 3144113471282707905);
    assert(pow_mod(4, 33437856, modulus()) == 3144113471282707905);
}

#[verifier::spinoff_prover]
proof fn lemma_generator_chain_4()
    requires
        pow_mod(4, 33437856, modulus()) == 3144113471282707905,
    ensures
        pow_mod(4, 2140022843, modulus()) == 6691068906715746802,
{
    lemma_pow_mod_double(4, 33437856, 3144113471282707905, modulus());
    assert(mul_mod(3144113471282707905, 3144113471282707905, modulus()) == 7868086534321618555);
    assert(mul_mod(7868086534321618555, 4, modulus()) == 3898361762286474211);
    assert(pow_mod(4, 66875713, modulus()) == 3898361762286474211);
    lemma_pow_mod_double(4, 66875713, 3898361762286474211, modulus());
    assert(mul_mod(3898361762286474211, 3898361762286474211, modulus()) == 7710049203549377026);
    assert(mul_mod(7710049203549377026, 4, modulus()) == 3266212439197508095);
    assert(pow_mod(4, 133751427, modulus()) == 3266212439197508095);
    lemma_pow_mod_double(4, 133751427, 3266212439197508095, modulus());
    assert(mul_mod(3266212439197508095, 3266212439197508095, modulus()) == 3930200332980317604);
    assert(mul_mod(3930200332980317604, 4, modulus()) == 6529473206921270413);
    assert(pow_mod(4, 267502855, modulus()) == 6529473206921270413);
    lemma_pow_mod_double(4, 267502855, 6529473206921270413, modulus());
    assert(mul_mod(6529473206921270413, 6529473206921270413, modulus()) == 3503520190388487869);
    assert(pow_mod(4, 535005710, modulus()) == 3503520190388487869);
    lemma_pow_mod_double(4, 535005710, 3503520190388487869, modulus());
    assert(mul_mod(3503520190388487869, 3503520190388487869, modulus()) == 1759176548980848178);
    assert(mul_mod(1759176548980848178, 4, modulus()) == 7036706195923392712);
    assert(pow_mod(4, 1070011421, modulus()) == 7036706195923392712);
    lemma_pow_mod_double(4, 1070011421, 7036706195923392712, modulus());
    assert(mul_mod(7036706195923392712, 7036706195923392712, modulus()) == 6268431289178936702);
    assert(mul_mod(6268431289178936702, 4, modulus()) == 6691068906715746802);
    assert(pow_mod(4, 2140022843, modulus()) == 6691068906715746802);
}

#[verifier::spinoff_prover]
proof fn lemma_generator_chain_5()
    requires
        pow_mod(4, 2140022843, modulus()) == 6691068906715746802,
    ensures
        pow_mod(4, 136961461976, modulus()) == 783579435561353498,
{
    lemma_pow_mod_double(4, 2140022843, 6691068906715746802, modulus());
    assert(mul_mod(6691068906715746802, 6691068906715746802, modulus()) == 1560111618531780597);
    assert(pow_mod(4, 4280045686, modulus()) == 1560111618531780597);
    lemma_pow_mod_double(4, 4280045686, 1560111618531780597, modulus());
    assert(mul_mod(1560111618531780597, 1560111618531780597, modulus()) == 2480777390593663893);
    assert(mul_mod(2480777390593663893, 4, modulus()) == 731781437374655569);
    assert(pow_mod(4, 8560091373, modulus()) == 731781437374655569);
    lemma_pow_mod_double(4, 8560091373, 731781437374655569, modulus());
    assert(mul_mod(731781437374655569, 731781437374655569, modulus()) == 4534451456216950425);
    assert(mul_mod(4534451456216950425, 4, modulus()) == 8946477699867801697);
    assert(pow_mod(4, 17120182747, modulus()) == 8946477699867801697);
    lemma_pow_mod_double(4, 17120182747, 8946477699867801697, modulus());
    assert(mul_mod(8946477699867801697, 8946477699867801697, modulus()) == 2139981070083609744);
    assert(pow_mod(4, 34240365494, modulus()) == 2139981070083609744);
    lemma_pow_mod_double(4, 34240365494, 2139981070083609744, modulus());
    assert(mul_mod(2139981070083609744, 2139981070083609744, modulus()) == 3667508667167020710);
    assert(pow_mod(4, 68480730988, modulus()) == 3667508667167020710);
    lemma_pow_mod_double(4, 68480730988, 3667508667167020710, modulus());
    assert(mul_mod(3667508667167020710, 3667508667167020710, modulus()) == 783579435561353498);
    assert(pow_mod(4, 136961461976, modulus()) == 783579435561353498);
}

#[verifier::spinoff_prover]
proof fn lemma_generator_chain_6()
    requires
        pow_mod(4, 136961461976, modulus()) == 783579435561353498,
    ensures
        pow_mod(4, 8765533566474, modulus()) == 5704038767710591430,
{
    lemma_pow_mod_double(4, 136961461976, 783579435561353498, modulus());
    assert(mul_mod(783579435561353498, 783579435561353498, modulus()) == 7369689783132245108);
    assert(pow_mod(4, 273922923952, modulus()) == 7369689783132245108);
    lemma_pow_mod_double(4, 273922923952, 7369689783132245108, modulus());
    assert(mul_mod(7369689783132245108, 7369689783132245108, modulus()) == 3182494450363989754);
    assert(pow_mod(4, 547845847904, modulus()) == 3182494450363989754);
    lemma_pow_mod_double(4, 547845847904, 3182494450363989754, modulus());
    assert(mul_mod(3182494450363989754, 3182494450363989754, modulus()) == 137437306491420754);
    assert(mul_mod(137437306491420754, 4, modulus()) == 549749225965683016);
    assert(pow_mod(4, 1095691695809, modulus()) == 549749225965683016);
    lemma_pow_mod_double(4, 1095691695809, 549749225965683016, modulus());
    assert(mul_mod(549749225965683016, 549749225965683016, modulus()) == 7806677657405476731);
    assert(pow_mod(4, 2191383391618, modulus()) == 7806677657405476731);
    lemma_pow_mod_double(4, 2191383391618, 7806677657405476731, modulus());
    assert(mul_mod(7806677657405476731, 7806677657405476731, modulus()) == 8419589761515534643);
    assert(mul_mod(8419589761515534643, 4, modulus()) == 6104374671062138563);
    assert(pow_mod(4, 4382766783237, modulus()) == 6104374671062138563);
    lemma_pow_mod_double(4, 4382766783237, 6104374671062138563, modulus());
    assert(mul_mod(6104374671062138563, 6104374671062138563, modulus()) == 5704038767710591430);
    assert(pow_mod(4, 8765533566474, modulus()) == 5704038767710591430);
}

#[verifier::spinoff_prover]
proof fn lemma_generator_chain_7()
    requires
        pow_mod(4, 8765533566474, modulus()) == 5704038767710591430,
    ensures
        pow_mod(4, 560994148254394, modulus()) == 5535424747688562672,
{
    lemma_pow_mod_double(4, 8765533566474, 5704038767710591430, modulus());
    assert(mul_mod(5704038767710591430, 5704038767710591430, modulus()) == 3492060856472438242);
    assert(mul_mod(3492060856472438242, 4, modulus()) == 4776915300889752965);
    assert(pow_mod(4, 17531067132949, modulus()) == 4776915300889752965);
    lemma_pow_mod_double(4, 17531067132949, 4776915300889752965, modulus());
    assert(mul_mod(4776915300889752965, 4776915300889752965, modulus()) == 3154307435205129624);
    assert(mul_mod(3154307435205129624, 4, modulus()) == 3425901615820518493);
    assert(pow_mod(4, 35062134265899, modulus()) == 3425901615820518493);
    lemma_pow_mod_double(4, 35062134265899, 3425901615820518493, modulus());
    assert(mul_mod(3425901615820518493, 3425901615820518493, modulus()) == 7991507186981932580);
    assert(mul_mod(7991507186981932580, 4, modulus()) == 4392044372927730311);
    assert(pow_mod(4, 70124268531799, modulus()) == 4392044372927730311);
    lemma_pow_mod_double(4, 70124268531799, 4392044372927730311, modulus());
    assert(mul_mod(4392044372927730311, 4392044372927730311, modulus()) == 968326998990360507);
    assert(pow_mod(4, 140248537063598, modulus()) == 968326998990360507);
    lemma_pow_mod_double(4, 140248537063598, 968326998990360507, modulus());
    assert(mul_mod(968326998990360507, 968326998990360507, modulus()) == 2886200528024259886);
    assert(mul_mod(2886200528024259886, 4, modulus()) == 2353473987097039541);
    assert(pow_mod(4, 280497074127197, modulus()) == 2353473987097039541);
    lemma_pow_mod_double(4, 280497074127197, 2353473987097039541, modulus());
    assert(mul_mod(2353473987097039541, 2353473987097039541, modulus()) == 5535424747688562672);
    assert(pow_mod(4, 560994148254394, modulus()) == 5535424747688562672);
}

#[verifier::spinoff_prover]
proof fn lemma_generator_chain_8()
    requires
        pow_mod(4, 560994148254394, modulus()) == 5535424747688562672,
    ensures
        pow_mod(4, 35903625488281250, modulus()) == 2897557559514751724,
{
    lemma_pow_mod_double(4, 560994148254394, 5535424747688562672, modulus());
    assert(mul_mod(5535424747688562672, 5535424747688562672, modulus()) == 6386338545703965767);
    assert(mul_mod(6386338545703965767, 4, modulus()) == 7162697932815863062);
    assert(pow_mod(4, 1121988296508789, modulus()) == 7162697932815863062);
    lemma_pow_mod_double(4, 1121988296508789, 7162697932815863062, modulus());
    assert(mul_mod(7162697932815863062, 7162697932815863062, modulus()) == 8021083045205069583);
    assert(pow_mod(4, 2243976593017578, modulus()) == 8021083045205069583);
    lemma_pow_mod_double(4, 2243976593017578, 8021083045205069583, modulus());
    assert(mul_mod(8021083045205069583, 8021083045205069583, modulus()) == 1625747567286040327);
    assert(pow_mod(4, 4487953186035156, modulus()) == 1625747567286040327);
    lemma_pow_mod_double(4, 4487953186035156, 1625747567286040327, modulus());
    assert(mul_mod(1625747567286040327, 1625747567286040327, modulus()) == 1045455794085325590);
    assert(pow_mod(4, 8975906372070312, modulus()) == 1045455794085325590);
    lemma_pow_mod_double(4, 8975906372070312, 1045455794085325590, modulus());
    assert(mul_mod(1045455794085325590, 1045455794085325590, modulus()) == 3572209677958079101);
    assert(mul_mod(3572209677958079101, 4, modulus()) == 5097510586832316401);
    assert(pow_mod(4, 17951812744140625, modulus()) == 5097510586832316401);
    lemma_pow_mod_double(4, 17951812744140625, 5097510586832316401, modulus());
    assert(mul_mod(5097510586832316401, 5097510586832316401, modulus()) == 2897557559514751724);
    assert(pow_mod(4, 35903625488281250, modulus()) == 2897557559514751724);
}

#[verifier::spinoff_prover]
proof fn lemma_generator_chain_9()
    requires
        pow_mod(4, 35903625488281250, modulus()) == 2897557559514751724,
    ensures
        pow_mod(4, 2297832031250000000, modulus()) == 4595664062500000001,
{
    lemma_pow_mod_double(4, 35903625488281250, 2897557559514751724, modulus());
    assert(mul_mod(2897557559514751724, 2897557559514751724, modulus()) == 5125919621036960714);
    assert(pow_mod(4, 71807250976562500, modulus()) == 5125919621036960714);
    lemma_pow_mod_double(4, 71807250976562500, 5125919621036960714, modulus());
    assert(mul_mod(5125919621036960714, 5125919621036960714, modulus()) == 5339900676785740562);
    assert(pow_mod(4, 143614501953125000, modulus()) == 5339900676785740562);
    lemma_pow_mod_double(4, 143614501953125000, 5339900676785740562, modulus());
    assert(mul_mod(5339900676785740562, 5339900676785740562, modulus()) == 6844861012878192284);
    assert(pow_mod(4, 287229003906250000, modulus()) == 6844861012878192284);
    lemma_pow_mod_double(4, 287229003906250000, 6844861012878192284, modulus());
    assert(mul_mod(6844861012878192284, 6844861012878192284, modulus()) == 7206307237277268411);
    assert(pow_mod(4, 574458007812500000, modulus()) == 7206307237277268411);
    lemma_pow_mod_double(4, 574458007812500000, 7206307237277268411, modulus());
    assert(mul_mod(7206307237277268411, 7206307237277268411, modulus()) == 8294285501026449559);
    assert(pow_mod(4, 1148916015625000000, modulus()) == 8294285501026449559);
    lemma_pow_mod_double(4, 1148916015625000000, 8294285501026449559, modulus());
    assert(mul_mod(8294285501026449559, 8294285501026449559, modulus()) == 4595664062500000001);
    assert(pow_mod(4, 2297832031250000000, modulus()) == 4595664062500000001);
}

#[verifier::spinoff_prover]
proof fn lemma_generator_chain_10()
    requires
        pow_mod(4, 2297832031250000000, modulus()) == 4595664062500000001,
    ensures
        pow_mod(4, 4595664062500000001, modulus()) == 1,
{
    lemma_pow_mod_double(4, 2297832031250000000, 4595664062500000001, modulus());
    assert(mul_mod(4595664062500000001, 4595664062500000001, modulus()) == 2297832031250000001);
    assert(mul_mod(2297832031250000001, 4, modulus()) == 1);
    assert(pow_mod(4, 4595664062500000001, modulus()) == 1);
}

/// The generator raised to the group order is one, as a plain computation.
pub proof fn lemma_generator_chain()
    ensures
        pow_mod(4, 4595664062500000001, modulus()) == 1,
{
    lemma_pow_mod_small_exponents(4, modulus());
    lemma_small_mod(4, modulus());
    assert(pow_mod(4, 1, modulus()) == 4);
    lemma_generator_chain_0();
    lemma_generator_chain_1();
    lemma_generator_chain_2();
    lemma_generator_chain_3();
    lemma_generator_chain_4();
    lemma_generator_chain_5();
    lemma_generator_chain_6();
    lemma_generator_chain_7();
    lemma_generator_chain_8();
    lemma_generator_chain_9();
    lemma_generator_chain_10();
}

/// The generator raised to the group order is one.
pub proof fn lemma_generator_order()
    ensures
        gen_pow(order()) == 1,
{
    lemma_generator_chain();
}

} // verus!
