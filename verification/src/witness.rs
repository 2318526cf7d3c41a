//! A certificate that the group order is prime, as plain computations:
//! three raised to the order less one is one modulo the order, and is not
//! one when raised to that exponent divided by two, by five or by seven, the
//! prime factors of the order less one.

use crate::modarith::{
    lemma_pow_mod_double, lemma_pow_mod_small_exponents, mul_mod, order, pow_mod,
};
use vstd::arithmetic::div_mod::*;
use vstd::prelude::*;

verus! {

#[verifier::spinoff_prover]
proof fn lemma_witness_full_0()
    requires
        pow_mod(3, 1, order()) == 3,
    ensures
        pow_mod(3, 127, order()) == 3872579252298114924,
{
    lemma_pow_mod_double(3, 1, 3, order());
    assert(mul_mod(3, 3, order()) == 9);
    assert(mul_mod(9, 3, order()) == 27);
    assert(pow_mod(3, 3, order()) == 27);
    lemma_pow_mod_double(3, 3, 27, order());
    assert(mul_mod(27, 27, order()) == 729);
    assert(mul_mod(729, 3, order()) == 2187);
    assert(pow_mod(3, 7, order()) == 2187);
    lemma_pow_mod_double(3, 7, 2187, order());
    assert(mul_mod(2187, 2187, order()) == 4782969);
    assert(mul_mod(4782969, 3, order()) == 14348907);
    assert(pow_mod(3, 15, order()) == 14348907);
    lemma_pow_mod_double(3, 15, 14348907, order());
    assert(mul_mod(14348907, 14348907, order()) == 205891132094649);
    assert(mul_mod(205891132094649, 3, order()) == 617673396283947);
    assert(pow_mod(3, 31, order()) == 617673396283947);
    lemma_pow_mod_double(3, 31, 617673396283947, order());
    assert(mul_mod(617673396283947, 617673396283947, order()) == 3919542483132424232);
    assert(mul_mod(3919542483132424232, 3, order()) == 2567299324397272694);
    assert(pow_mod(3, 63, order()) == 2567299324397272694);
    lemma_pow_mod_double(3, 63, 2567299324397272694, order());
    assert(mul_mod(2567299324397272694, 2567299324397272694, order()) == 1290859750766038308);
    assert(mul_mod(1290859750766038308, 3, order()) == 3872579252298114924);
    assert(pow_mod(3, 127, order()) == 3872579252298114924);
}

#[verifier::spinoff_prover]
proof fn lemma_witness_full_1()
    requires
        pow_mod(3, 127, order()) == 3872579252298114924,
    ensures
        pow_mod(3, 8163, order()) == 452398346372447880,
{
    lemma_pow_mod_double(3, 127, 3872579252298114924, order());
    assert(mul_mod(3872579252298114924, 3872579252298114924, order()) == 3479849246569614098);
    assert(mul_mod(3479849246569614098, 3, order()) == 1248219614708842292);
    assert(pow_mod(3, 255, order()) == 1248219614708842292);
    lemma_pow_mod_double(3, 255, 1248219614708842292, order());
    assert(mul_mod(1248219614708842292, 1248219614708842292, order()) == 3982075467222205041);
    assert(pow_mod(3, 510, order()) == 3982075467222205041);
    lemma_pow_mod_double(3, 510, 3982075467222205041, order());
    assert(mul_mod(3982075467222205041, 3982075467222205041, order()) == 2684951545210372963);
    assert(pow_mod(3, 1020, order()) == 2684951545210372963);
    lemma_pow_mod_double(3, 1020, 2684951545210372963, order());
    assert(mul_mod(2684951545210372963, 2684951545210372963, order()) == 1443955095693795073);
    assert(pow_mod(3, 2040, order()) == 1443955095693795073);
    lemma_pow_mod_double(3, 2040, 1443955095693795073, order());
    assert(mul_mod(1443955095693795073, 1443955095693795073, order()) == 3998577459322739039);
    assert(mul_mod(3998577459322739039, 3, order()) == 2804404252968217115);
    assert(pow_mod(3, 4081, order()) == 2804404252968217115);
    lemma_pow_mod_double(3, 4081, 2804404252968217115, order());
    assert(mul_mod(2804404252968217115, 2804404252968217115, order()) == 150799448790815960);
    assert(mul_mod(150799448790815960, 3, order()) == 452398346372447880);
    assert(pow_mod(3, 8163, order()) == 452398346372447880);
}

#[verifier::spinoff_prover]
proof fn lemma_witness_full_2()
    requires
        pow_mod(3, 8163, order()) == 452398346372447880,
    ensures
        pow_mod(3, 522466, order()) == 3156877129521127770,
{
    lemma_pow_mod_double(3, 8163, 452398346372447880, order());
    assert(mul_mod(452398346372447880, 452398346372447880, order()) == 4128135236827948401);
    assert(mul_mod(4128135236827948401, 3, order()) == 3193077585483845201);
    assert(pow_mod(3, 16327, order()) == 3193077585483845201);
    lemma_pow_mod_double(3, 16327, 3193077585483845201, order());
    assert(mul_mod(3193077585483845201, 3193077585483845201, order()) == 2867442646226013196);
    assert(pow_mod(3, 32654, order()) == 2867442646226013196);
    lemma_pow_mod_double(3, 32654, 2867442646226013196, order());
    assert(mul_mod(2867442646226013196, 2867442646226013196, order()) == 3759213362987556517);
    assert(pow_mod(3, 65308, order()) == 3759213362987556517);
    lemma_pow_mod_double(3, 65308, 3759213362987556517, order());
    assert(mul_mod(3759213362987556517, 3759213362987556517, order()) == 149830490232401853);
    assert(pow_mod(3, 130616, order()) == 149830490232401853);
    lemma_pow_mod_double(3, 130616, 149830490232401853, order());
    assert(mul_mod(149830490232401853, 149830490232401853, order()) == 1478507638723230376);
    assert(mul_mod(1478507638723230376, 3, order()) == 4435522916169691128);
    assert(pow_mod(3, 261233, order()) == 4435522916169691128);
    lemma_pow_mod_double(3, 261233, 4435522916169691128, order());
    assert(mul_mod(4435522916169691128, 4435522916169691128, order()) == 3156877129521127770);
    assert(pow_mod(3, 522466, order()) == 3156877129521127770);
}

#[verifier::spinoff_prover]
proof fn lemma_witness_full_3()
    requires
        pow_mod(3, 522466, order()) == 3156877129521127770,
    ensures
        pow_mod(3, 33437856, order()) == 408561865415436623,
{
    lemma_pow_mod_double(3, 522466, 3156877129521127770, order());
    assert(mul_mod(3156877129521127770, 3156877129521127770, order()) == 2688791520355527123);
    assert(mul_mod(2688791520355527123, 3, order()) == 3470710498566581368);
    assert(pow_mod(3, 1044933, order()) == 3470710498566581368);
    lemma_pow_mod_double(3, 1044933, 3470710498566581368, order());
    assert(mul_mod(3470710498566581368, 3470710498566581368, order()) == 170104505710482643);
    assert(pow_mod(3, 2089866, order()) == 170104505710482643);
    lemma_pow_mod_double(3, 2089866, 170104505710482643, order());
    assert(mul_mod(170104505710482643, 170104505710482643, order()) == 3666874620765733927);
    assert(pow_mod(3, 4179732, order()) == 3666874620765733927);
    lemma_pow_mod_double(3, 4179732, 3666874620765733927, order());
    assert(mul_mod(3666874620765733927, 3666874620765733927, order()) == 3402612992762242701);
    assert(pow_mod(3, 8359464, order()) == 3402612992762242701);
    lemma_pow_mod_double(3, 8359464, 3402612992762242701, order());
    assert(mul_mod(3402612992762242701, 3402612992762242701, order()) == 374633783541162655);
    assert(pow_mod(3, 16718928, order()) == 374633783541162655);
    lemma_pow_mod_double(3, 16718928, 374633783541162655, order());
    assert(mul_mod(374633783541162655, 374633783541162655, order()) == 408561865415436623);
    assert(pow_mod(3, 33437856, order()) == 408561865415436623);
}

#[verifier::spinoff_prover]
proof fn lemma_witness_full_4()
    requires
        pow_mod(3, 33437856, order()) == 408561865415436623,
    ensures
        pow_mod(3, 2140022843, order()) == 1367802034385218224,
{
    lemma_pow_mod_double(3, 33437856, 408561865415436623, order());
    assert(mul_mod(408561865415436623, 408561865415436623, order()) == 491215513722478080);
    assert(mul_mod(491215513722478080, 3, order()) == 1473646541167434240);
    assert(pow_mod(3, 66875713, order()) == 1473646541167434240);
    lemma_pow_mod_double(3, 66875713, 1473646541167434240, order());
    assert(mul_mod(1473646541167434240, 1473646541167434240, order()) == 185586177813966913);
    assert(mul_mod(185586177813966913, 3, order()) == 556758533441900739);
    assert(pow_mod(3, 133751427, order()) == 556758533441900739);
    lemma_pow_mod_double(3, 133751427, 556758533441900739, order());
    assert(mul_mod(556758533441900739, 556758533441900739, order()) == 2480540613014468667);
    assert(mul_mod(2480540613014468667, 3, order()) == 2845957776543406000);
    assert(pow_mod(3, 267502855, order()) == 2845957776543406000);
    lemma_pow_mod_double(3, 267502855, 2845957776543406000, order());
    assert(mul_mod(2845957776543406000, 2845957776543406000, order()) == 1450211818320760489);
    assert(pow_mod(3, 535005710, order()) == 1450211818320760489);
    lemma_pow_mod_double(3, 535005710, 1450211818320760489, order());
    assert(mul_mod(1450211818320760489, 1450211818320760489, order()) == 4087415795604384539);
    assert(mul_mod(4087415795604384539, 3, order()) == 3070919261813153615);
    assert(pow_mod(3, 1070011421, order()) == 3070919261813153615);
    lemma_pow_mod_double(3, 1070011421, 3070919261813153615, order());
    assert(mul_mod(3070919261813153615, 3070919261813153615, order()) == 455934011461739408);
    assert(mul_mod(455934011461739408, 3, order()) == 1367802034385218224);
    assert(pow_mod(3, 2140022843, order()) == 1367802034385218224);
}

#[verifier::spinoff_prover]
proof fn lemma_witness_full_5()
    requires
        pow_mod(3, 2140022843, order()) == 1367802034385218224,
    ensures
        pow_mod(3, 136961461976, order()) == 2888089195169764650,
{
    lemma_pow_mod_double(3, 2140022843, 1367802034385218224, order());
    assert(mul_mod(1367802034385218224, 1367802034385218224, order()) == 216087267820678660);
    assert(pow_mod(3, 4280045686, order()) == 216087267820678660);
    lemma_pow_mod_double(3, 4280045686, 216087267820678660, order());
    assert(mul_mod(216087267820678660, 216087267820678660, order()) == 1070995957414145015);
    assert(mul_mod(1070995957414145015, 3, order()) == 3212987872242435045);
    assert(pow_mod(3, 8560091373, order()) == 3212987872242435045);
    lemma_pow_mod_double(3, 8560091373, 3212987872242435045, order());
    assert(mul_mod(3212987872242435045, 3212987872242435045, order()) == 210082471459132734);
    assert(mul_mod(210082471459132734, 3, order()) == 630247414377398202);
    assert(pow_mod(3, 17120182747, order()) == 630247414377398202);
    lemma_pow_mod_double(3, 17120182747, 630247414377398202, order());
    assert(mul_mod(630247414377398202, 630247414377398202, order()) == 2968535859094083861);
    assert(pow_mod(3, 34240365494, order()) == 2968535859094083861);
    lemma_pow_mod_double(3, 34240365494, 2968535859094083861, order());
    assert(mul_mod(2968535859094083861, 2968535859094083861, order()) == 1604261082292092382);
    assert(pow_mod(3, 68480730988, order()) == 1604261082292092382);
    lemma_pow_mod_double(3, 68480730988, 1604261082292092382, order());
    assert(mul_mod(1604261082292092382, 1604261082292092382, order()) == 2888089195169764650);
    assert(pow_mod(3, 136961461976, order()) == 2888089195169764650);
}

#[verifier::spinoff_prover]
proof fn lemma_witness_full_6()
    requires
        pow_mod(3, 136961461976, order()) == 2888089195169764650,
    ensures
        pow_mod(3, 8765533566474, order()) == 4002607039151963231,
{
    lemma_pow_mod_double(3, 136961461976, 2888089195169764650, order());
    assert(mul_mod(2888089195169764650, 2888089195169764650, order()) == 3880100564376262621);
    assert(pow_mod(3, 273922923952, order()) == 3880100564376262621);
    lemma_pow_mod_double(3, 273922923952, 3880100564376262621, order());
    assert(mul_mod(3880100564376262621, 3880100564376262621, order()) == 2304213098396739469);
    assert(pow_mod(3, 547845847904, order()) == 2304213098396739469);
    lemma_pow_mod_double(3, 547845847904, 2304213098396739469, order());
    assert(mul_mod(2304213098396739469, 2304213098396739469, order()) == 4447849624896152224);
    assert(mul_mod(4447849624896152224, 3, order()) == 4152220749688456670);
    assert(pow_mod(3, 1095691695809, order()) == 4152220749688456670);
    lemma_pow_mod_double(3, 1095691695809, 4152220749688456670, order());
    assert(mul_mod(4152220749688456670, 4152220749688456670, order()) == 29595097565286162);
    assert(pow_mod(3, 2191383391618, order()) == 29595097565286162);
    lemma_pow_mod_double(3, 2191383391618, 29595097565286162, order());
    assert(mul_mod(29595097565286162, 29595097565286162, order()) == 4135801724324903307);
    assert(mul_mod(4135801724324903307, 3, order()) == 3216077047974709919);
    assert(pow_mod(3, 4382766783237, order()) == 3216077047974709919);
    lemma_pow_mod_double(3, 4382766783237, 3216077047974709919, order());
    assert(mul_mod(3216077047974709919, 3216077047974709919, order()) == 4002607039151963231);
    assert(pow_mod(3, 8765533566474, order()) == 4002607039151963231);
}

#[verifier::spinoff_prover]
proof fn lemma_witness_full_7()
    requires
        pow_mod(3, 8765533566474, order()) == 4002607039151963231,
    ensures
        pow_mod(3, 560994148254394, order()) == 504794391222374994,
{
    lemma_pow_mod_double(3, 8765533566474, 4002607039151963231, order());
    assert(mul_mod(4002607039151963231, 4002607039151963231, order()) == 1307748424226322303);
    assert(mul_mod(1307748424226322303, 3, order()) == 3923245272678966909);
    assert(pow_mod(3, 17531067132949, order()) == 3923245272678966909);
    lemma_pow_mod_double(3, 17531067132949, 3923245272678966909, order());
    assert(mul_mod(3923245272678966909, 3923245272678966909, order()) == 2635598756531393901);
    assert(mul_mod(2635598756531393901, 3, order()) == 3311132207094181702);
    assert(pow_mod(3, 35062134265899, order()) == 3311132207094181702);
    lemma_pow_mod_double(3, 35062134265899, 3311132207094181702, order());
    assert(mul_mod(3311132207094181702, 3311132207094181702, order()) == 3342471087193424668);
    assert(mul_mod(3342471087193424668, 3, order()) == 836085136580274002);
    assert(pow_mod(3, 70124268531799, order()) == 836085136580274002);
    lemma_pow_mod_double(3, 70124268531799, 836085136580274002, order());
    assert(mul_mod(836085136580274002, 836085136580274002, order()) == 2620626662502161419);
    assert(pow_mod(3, 140248537063598, order()) == 2620626662502161419);
    lemma_pow_mod_double(3, 140248537063598, 2620626662502161419, order());
    assert(mul_mod(2620626662502161419, 2620626662502161419, order()) == 626362880480588944);
    assert(mul_mod(626362880480588944, 3, order()) == 1879088641441766832);
    assert(pow_mod(3, 280497074127197, order()) == 1879088641441766832);
    lemma_pow_mod_double(3, 280497074127197, 1879088641441766832, order());
    assert(mul_mod(1879088641441766832, 1879088641441766832, order()) == 504794391222374994);
    assert(pow_mod(3, 560994148254394, order()) == 504794391222374994);
}

#[verifier::spinoff_prover]
proof fn lemma_witness_full_8()
    requires
        pow_mod(3, 560994148254394, order()) == 504794391222374994,
    ensures
        pow_mod(3, 35903625488281250, order()) == 850646127329493295,
{
    lemma_pow_mod_double(3, 560994148254394, 504794391222374994, order());
    assert(mul_mod(504794391222374994, 504794391222374994, order()) == 3658876849513394312);
    assert(mul_mod(3658876849513394312, 3, order()) == 1785302423540182934);
    assert(pow_mod(3, 1121988296508789, order()) == 1785302423540182934);
    lemma_pow_mod_double(3, 1121988296508789, 1785302423540182934, order());
    assert(mul_mod(1785302423540182934, 1785302423540182934, order()) == 1417845010009718617);
    assert(pow_mod(3, 2243976593017578, order()) == 1417845010009718617);
    lemma_pow_mod_double(3, 2243976593017578, 1417845010009718617, order());
    assert(mul_mod(1417845010009718617, 1417845010009718617, order()) == 2470070795426373628);
    assert(pow_mod(3, 4487953186035156, order()) == 2470070795426373628);
    lemma_pow_mod_double(3, 4487953186035156, 2470070795426373628, order());
    assert(mul_mod(2470070795426373628, 2470070795426373628, order()) == 1023399516510069689);
    assert(pow_mod(3, 8975906372070312, order()) == 1023399516510069689);
    lemma_pow_mod_double(3, 8975906372070312, 1023399516510069689, order());
    assert(mul_mod(1023399516510069689, 1023399516510069689, order()) == 2133724219750111136);
    assert(mul_mod(2133724219750111136, 3, order()) == 1805508596750333407);
    assert(pow_mod(3, 17951812744140625, order()) == 1805508596750333407);
    lemma_pow_mod_double(3, 17951812744140625, 1805508596750333407, order());
    assert(mul_mod(1805508596750333407, 1805508596750333407, order()) == 850646127329493295);
    assert(pow_mod(3, 35903625488281250, order()) == 850646127329493295);
}

#[verifier::spinoff_prover]
proof fn lemma_witness_full_9()
    requires
        pow_mod(3, 35903625488281250, order()) == 850646127329493295,
    ensures
        pow_mod(3, 2297832031250000000, order()) == 4595664062500000000,
{
    lemma_pow_mod_double(3, 35903625488281250, 850646127329493295, order());
    assert(mul_mod(850646127329493295, 850646127329493295, order()) == 1200800253150855361);
    assert(pow_mod(3, 71807250976562500, order()) == 1200800253150855361);
    lemma_pow_mod_double(3, 71807250976562500, 1200800253150855361, order());
    assert(mul_mod(1200800253150855361, 1200800253150855361, order()) == 2387030306873415060);
    assert(pow_mod(3, 143614501953125000, order()) == 2387030306873415060);
    lemma_pow_mod_double(3, 143614501953125000, 2387030306873415060, order());
    assert(mul_mod(2387030306873415060, 2387030306873415060, order()) == 2187328151427709058);
    assert(pow_mod(3, 287229003906250000, order()) == 2187328151427709058);
    lemma_pow_mod_double(3, 287229003906250000, 2187328151427709058, order());
    assert(mul_mod(2187328151427709058, 2187328151427709058, order()) == 31627450352197542);
    assert(pow_mod(3, 574458007812500000, order()) == 31627450352197542);
    lemma_pow_mod_double(3, 574458007812500000, 31627450352197542, order());
    assert(mul_mod(31627450352197542, 31627450352197542, order()) == 4595664060356250001);
    assert(pow_mod(3, 1148916015625000000, order()) == 4595664060356250001);
    lemma_pow_mod_double(3, 1148916015625000000, 4595664060356250001, order());
    assert(mul_mod(4595664060356250001, 4595664060356250001, order()) == 4595664062500000000);
    assert(pow_mod(3, 2297832031250000000, order()) == 4595664062500000000);
}

#[verifier::spinoff_prover]
proof fn lemma_witness_full_10()
    requires
        pow_mod(3, 2297832031250000000, order()) == 4595664062500000000,
    ensures
        pow_mod(3, 4595664062500000000, order()) == 1,
{
    lemma_pow_mod_double(3, 2297832031250000000, 4595664062500000000, order());
    assert(mul_mod(4595664062500000000, 4595664062500000000, order()) == 1);
    assert(pow_mod(3, 4595664062500000000, order()) == 1);
}

/// Three raised to the order less one is one modulo the order.
pub proof fn lemma_witness_full()
    ensures
        pow_mod(3, 4595664062500000000, order()) == 1,
{
    lemma_pow_mod_small_exponents(3, order());
    lemma_small_mod(3, order());
    assert(pow_mod(3, 1, order()) == 3);
    lemma_witness_full_0();
    lemma_witness_full_1();
    lemma_witness_full_2();
    lemma_witness_full_3();
    lemma_witness_full_4();
    lemma_witness_full_5();
    lemma_witness_full_6();
    lemma_witness_full_7();
    lemma_witness_full_8();
    lemma_witness_full_9();
    lemma_witness_full_10();
}

#[verifier::spinoff_prover]
proof fn lemma_witness_half_0()
    requires
        pow_mod(3, 1, order()) == 3,
    ensures
        pow_mod(3, 127, order()) == 3872579252298114924,
{
    lemma_pow_mod_double(3, 1, 3, order());
    assert(mul_mod(3, 3, order()) == 9);
    assert(mul_mod(9, 3, order()) == 27);
    assert(pow_mod(3, 3, order()) == 27);
    lemma_pow_mod_double(3, 3, 27, order());
    assert(mul_mod(27, 27, order()) == 729);
    assert(mul_mod(729, 3, order()) == 2187);
    assert(pow_mod(3, 7, order()) == 2187);
    lemma_pow_mod_double(3, 7, 2187, order());
    assert(mul_mod(2187, 2187, order()) == 4782969);
    assert(mul_mod(4782969, 3, order()) == 14348907);
    assert(pow_mod(3, 15, order()) == 14348907);
    lemma_pow_mod_double(3, 15, 14348907, order());
    assert(mul_mod(14348907, 14348907, order()) == 205891132094649);
    assert(mul_mod(205891132094649, 3, order()) == 617673396283947);
    assert(pow_mod(3, 31, order()) == 617673396283947);
    lemma_pow_mod_double(3, 31, 617673396283947, order());
    assert(mul_mod(617673396283947, 617673396283947, order()) == 3919542483132424232);
    assert(mul_mod(3919542483132424232, 3, order()) == 2567299324397272694);
    assert(pow_mod(3, 63, order()) == 2567299324397272694);
    lemma_pow_mod_double(3, 63, 2567299324397272694, order());
    assert(mul_mod(2567299324397272694, 2567299324397272694, order()) == 1290859750766038308);
    assert(mul_mod(1290859750766038308, 3, order()) == 3872579252298114924);
    assert(pow_mod(3, 127, order()) == 3872579252298114924);
}

#[verifier::spinoff_prover]
proof fn lemma_witness_half_1()
    requires
        pow_mod(3, 127, order()) == 3872579252298114924,
    ensures
        pow_mod(3, 8163, order()) == 452398346372447880,
{
    lemma_pow_mod_double(3, 127, 3872579252298114924, order());
    assert(mul_mod(3872579252298114924, 3872579252298114924, order()) == 3479849246569614098);
    assert(mul_mod(3479849246569614098, 3, order()) == 1248219614708842292);
    assert(pow_mod(3, 255, order()) == 1248219614708842292);
    lemma_pow_mod_double(3, 255, 1248219614708842292, order());
    assert(mul_mod(1248219614708842292, 1248219614708842292, order()) == 3982075467222205041);
    assert(pow_mod(3, 510, order()) == 3982075467222205041);
    lemma_pow_mod_double(3, 510, 3982075467222205041, order());
    assert(mul_mod(3982075467222205041, 3982075467222205041, order()) == 2684951545210372963);
    assert(pow_mod(3, 1020, order()) == 2684951545210372963);
    lemma_pow_mod_double(3, 1020, 2684951545210372963, order());
    assert(mul_mod(2684951545210372963, 2684951545210372963, order()) == 1443955095693795073);
    assert(pow_mod(3, 2040, order()) == 1443955095693795073);
    lemma_pow_mod_double(3, 2040, 1443955095693795073, order());
    assert(mul_mod(1443955095693795073, 1443955095693795073, order()) == 3998577459322739039);
    assert(mul_mod(3998577459322739039, 3, order()) == 2804404252968217115);
    assert(pow_mod(3, 4081, order()) == 2804404252968217115);
    lemma_pow_mod_double(3, 4081, 2804404252968217115, order());
    assert(mul_mod(2804404252968217115, 2804404252968217115, order()) == 150799448790815960);
    assert(mul_mod(150799448790815960, 3, order()) == 452398346372447880);
    assert(pow_mod(3, 8163, order()) == 452398346372447880);
}

#[verifier::spinoff_prover]
proof fn lemma_witness_half_2()
    requires
        pow_mod(3, 8163, order()) == 452398346372447880,
    ensures
        pow_mod(3, 522466, order()) == 3156877129521127770,
{
    lemma_pow_mod_double(3, 8163, 452398346372447880, order());
    assert(mul_mod(452398346372447880, 452398346372447880, order()) == 4128135236827948401);
    assert(mul_mod(4128135236827948401, 3, order()) == 3193077585483845201);
    assert(pow_mod(3, 16327, order()) == 3193077585483845201);
    lemma_pow_mod_double(3, 16327, 3193077585483845201, order());
    assert(mul_mod(3193077585483845201, 3193077585483845201, order()) == 2867442646226013196);
    assert(pow_mod(3, 32654, order()) == 2867442646226013196);
    lemma_pow_mod_double(3, 32654, 2867442646226013196, order());
    assert(mul_mod(2867442646226013196, 2867442646226013196, order()) == 3759213362987556517);
    assert(pow_mod(3, 65308, order()) == 3759213362987556517);
    lemma_pow_mod_double(3, 65308, 3759213362987556517, order());
    assert(mul_mod(3759213362987556517, 3759213362987556517, order()) == 149830490232401853);
    assert(pow_mod(3, 130616, order()) == 149830490232401853);
    lemma_pow_mod_double(3, 130616, 149830490232401853, order());
    assert(mul_mod(149830490232401853, 149830490232401853, order()) == 1478507638723230376);
    assert(mul_mod(1478507638723230376, 3, order()) == 4435522916169691128);
    assert(pow_mod(3, 261233, order()) == 4435522916169691128);
    lemma_pow_mod_double(3, 261233, 4435522916169691128, order());
    assert(mul_mod(4435522916169691128, 4435522916169691128, order()) == 3156877129521127770);
    assert(pow_mod(3, 522466, order()) == 3156877129521127770);
}

#[verifier::spinoff_prover]
proof fn lemma_witness_half_3()
    requires
        pow_mod(3, 522466, order()) == 3156877129521127770,
    ensures
        pow_mod(3, 33437856, order()) == 408561865415436623,
{
    lemma_pow_mod_double(3, 522466, 3156877129521127770, order());
    assert(mul_mod(3156877129521127770, 3156877129521127770, order()) == 2688791520355527123);
    assert(mul_mod(2688791520355527123, 3, order()) == 3470710498566581368);
    assert(pow_mod(3, 1044933, order()) == 3470710498566581368);
    lemma_pow_mod_double(3, 1044933, 3470710498566581368, order());
    assert(mul_mod(3470710498566581368, 3470710498566581368, order()) == 170104505710482643);
    assert(pow_mod(3, 2089866, order()) == 170104505710482643);
    lemma_pow_mod_double(3, 2089866, 170104505710482643, order());
    assert(mul_mod(170104505710482643, 170104505710482643, order()) == 3666874620765733927);
    assert(pow_mod(3, 4179732, order()) == 3666874620765733927);
    lemma_pow_mod_double(3, 4179732, 3666874620765733927, order());
    assert(mul_mod(3666874620765733927, 3666874620765733927, order()) == 3402612992762242701);
    assert(pow_mod(3, 8359464, order()) == 3402612992762242701);
    lemma_pow_mod_double(3, 8359464, 3402612992762242701, order());
    assert(mul_mod(3402612992762242701, 3402612992762242701, order()) == 374633783541162655);
    assert(pow_mod(3, 16718928, order()) == 374633783541162655);
    lemma_pow_mod_double(3, 16718928, 374633783541162655, order());
    assert(mul_mod(374633783541162655, 374633783541162655, order()) == 408561865415436623);
    assert(pow_mod(3, 33437856, order()) == 408561865415436623);
}

#[verifier::spinoff_prover]
proof fn lemma_witness_half_4()
    requires
        pow_mod(3, 33437856, order()) == 408561865415436623,
    ensures
        pow_mod(3, 2140022843, order()) == 1367802034385218224,
{
    lemma_pow_mod_double(3, 33437856, 408561865415436623, order());
    assert(mul_mod(408561865415436623, 408561865415436623, order()) == 491215513722478080);
    assert(mul_mod(491215513722478080, 3, order()) == 1473646541167434240);
    assert(pow_mod(3, 66875713, order()) == 1473646541167434240);
    lemma_pow_mod_double(3, 66875713, 1473646541167434240, order());
    assert(mul_mod(1473646541167434240, 1473646541167434240, order()) == 185586177813966913);
    assert(mul_mod(185586177813966913, 3, order()) == 556758533441900739);
    assert(pow_mod(3, 133751427, order()) == 556758533441900739);
    lemma_pow_mod_double(3, 133751427, 556758533441900739, order());
    assert(mul_mod(556758533441900739, 556758533441900739, order()) == 2480540613014468667);
    assert(mul_mod(2480540613014468667, 3, order()) == 2845957776543406000);
    assert(pow_mod(3, 267502855, order()) == 2845957776543406000);
    lemma_pow_mod_double(3, 267502855, 2845957776543406000, order());
    assert(mul_mod(2845957776543406000, 2845957776543406000, order()) == 1450211818320760489);
    assert(pow_mod(3, 535005710, order()) == 1450211818320760489);
    lemma_pow_mod_double(3, 535005710, 1450211818320760489, order());
    assert(mul_mod(1450211818320760489, 1450211818320760489, order()) == 4087415795604384539);
    assert(mul_mod(4087415795604384539, 3, order()) == 3070919261813153615);
    assert(pow_mod(3, 1070011421, order()) == 3070919261813153615);
    lemma_pow_mod_double(3, 1070011421, 3070919261813153615, order());
    assert(mul_mod(3070919261813153615, 3070919261813153615, order()) == 455934011461739408);
    assert(mul_mod(455934011461739408, 3, order()) == 1367802034385218224);
    assert(pow_mod(3, 2140022843, order()) == 1367802034385218224);
}

#[verifier::spinoff_prover]
proof fn lemma_witness_half_5()
    requires
        pow_mod(3, 2140022843, order()) == 1367802034385218224,
    ensures
        pow_mod(3, 136961461976, order()) == 2888089195169764650,
{
    lemma_pow_mod_double(3, 2140022843, 1367802034385218224, order());
    assert(mul_mod(1367802034385218224, 1367802034385218224, order()) == 216087267820678660);
    assert(pow_mod(3, 4280045686, order()) == 216087267820678660);
    lemma_pow_mod_double(3, 4280045686, 216087267820678660, order());
    assert(mul_mod(216087267820678660, 216087267820678660, order()) == 1070995957414145015);
    assert(mul_mod(1070995957414145015, 3, order()) == 3212987872242435045);
    assert(pow_mod(3, 8560091373, order()) == 3212987872242435045);
    lemma_pow_mod_double(3, 8560091373, 3212987872242435045, order());
    assert(mul_mod(3212987872242435045, 3212987872242435045, order()) == 210082471459132734);
    assert(mul_mod(210082471459132734, 3, order()) == 630247414377398202);
    assert(pow_mod(3, 17120182747, order()) == 630247414377398202);
    lemma_pow_mod_double(3, 17120182747, 630247414377398202, order());
    assert(mul_mod(630247414377398202, 630247414377398202, order()) == 2968535859094083861);
    assert(pow_mod(3, 34240365494, order()) == 2968535859094083861);
    lemma_pow_mod_double(3, 34240365494, 2968535859094083861, order());
    assert(mul_mod(2968535859094083861, 2968535859094083861, order()) == 1604261082292092382);
    assert(pow_mod(3, 68480730988, order()) == 1604261082292092382);
    lemma_pow_mod_double(3, 68480730988, 1604261082292092382, order());
    assert(mul_mod(1604261082292092382, 1604261082292092382, order()) == 2888089195169764650);
    assert(pow_mod(3, 136961461976, order()) == 2888089195169764650);
}

#[verifier::spinoff_prover]
proof fn lemma_witness_half_6()
    requires
        pow_mod(3, 136961461976, order()) == 2888089195169764650,
    ensures
        pow_mod(3, 8765533566474, order()) == 4002607039151963231,
{
    lemma_pow_mod_double(3, 136961461976, 2888089195169764650, order());
    assert(mul_mod(2888089195169764650, 2888089195169764650, order()) == 3880100564376262621);
    assert(pow_mod(3, 273922923952, order()) == 3880100564376262621);
    lemma_pow_mod_double(3, 273922923952, 3880100564376262621, order());
    assert(mul_mod(3880100564376262621, 3880100564376262621, order()) == 2304213098396739469);
    assert(pow_mod(3, 547845847904, order()) == 2304213098396739469);
    lemma_pow_mod_double(3, 547845847904, 2304213098396739469, order());
    assert(mul_mod(2304213098396739469, 2304213098396739469, order()) == 4447849624896152224);
    assert(mul_mod(4447849624896152224, 3, order()) == 4152220749688456670);
    assert(pow_mod(3, 1095691695809, order()) == 4152220749688456670);
    lemma_pow_mod_double(3, 1095691695809, 4152220749688456670, order());
    assert(mul_mod(4152220749688456670, 4152220749688456670, order()) == 29595097565286162);
    assert(pow_mod(3, 2191383391618, order()) == 29595097565286162);
    lemma_pow_mod_double(3, 2191383391618, 29595097565286162, order());
    assert(mul_mod(29595097565286162, 29595097565286162, order()) == 4135801724324903307);
    assert(mul_mod(4135801724324903307, 3, order()) == 3216077047974709919);
    assert(pow_mod(3, 4382766783237, order()) == 3216077047974709919);
    lemma_pow_mod_double(3, 4382766783237, 3216077047974709919, order());
    assert(mul_mod(3216077047974709919, 3216077047974709919, order()) == 4002607039151963231);
    assert(pow_mod(3, 8765533566474, order()) == 4002607039151963231);
}

#[verifier::spinoff_prover]
proof fn lemma_witness_half_7()
    requires
        pow_mod(3, 8765533566474, order()) == 4002607039151963231,
    ensures
        pow_mod(3, 560994148254394, order()) == 504794391222374994,
{
    lemma_pow_mod_double(3, 8765533566474, 4002607039151963231, order());
    assert(mul_mod(4002607039151963231, 4002607039151963231, order()) == 1307748424226322303);
    assert(mul_mod(1307748424226322303, 3, order()) == 3923245272678966909);
    assert(pow_mod(3, 17531067132949, order()) == 3923245272678966909);
    lemma_pow_mod_double(3, 17531067132949, 3923245272678966909, order());
    assert(mul_mod(3923245272678966909, 3923245272678966909, order()) == 2635598756531393901);
    assert(mul_mod(2635598756531393901, 3, order()) == 3311132207094181702);
    assert(pow_mod(3, 35062134265899, order()) == 3311132207094181702);
    lemma_pow_mod_double(3, 35062134265899, 3311132207094181702, order());
    assert(mul_mod(3311132207094181702, 3311132207094181702, order()) == 3342471087193424668);
    assert(mul_mod(3342471087193424668, 3, order()) == 836085136580274002);
    assert(pow_mod(3, 70124268531799, order()) == 836085136580274002);
    lemma_pow_mod_double(3, 70124268531799, 836085136580274002, order());
    assert(mul_mod(836085136580274002, 836085136580274002, order()) == 2620626662502161419);
    assert(pow_mod(3, 140248537063598, order()) == 2620626662502161419);
    lemma_pow_mod_double(3, 140248537063598, 2620626662502161419, order());
    assert(mul_mod(2620626662502161419, 2620626662502161419, order()) == 626362880480588944);
    assert(mul_mod(626362880480588944, 3, order()) == 1879088641441766832);
    assert(pow_mod(3, 280497074127197, order()) == 1879088641441766832);
    lemma_pow_mod_double(3, 280497074127197, 1879088641441766832, order());
    assert(mul_mod(1879088641441766832, 1879088641441766832, order()) == 504794391222374994);
    assert(pow_mod(3, 560994148254394, order()) == 504794391222374994);
}

#[verifier::spinoff_prover]
proof fn lemma_witness_half_8()
    requires
        pow_mod(3, 560994148254394, order()) == 504794391222374994,
    ensures
        pow_mod(3, 35903625488281250, order()) == 850646127329493295,
{
    lemma_pow_mod_double(3, 560994148254394, 504794391222374994, order());
    assert(mul_mod(504794391222374994, 504794391222374994, order()) == 3658876849513394312);
    assert(mul_mod(3658876849513394312, 3, order()) == 1785302423540182934);
    assert(pow_mod(3, 1121988296508789, order()) == 1785302423540182934);
    lemma_pow_mod_double(3, 1121988296508789, 1785302423540182934, order());
    assert(mul_mod(1785302423540182934, 1785302423540182934, order()) == 1417845010009718617);
    assert(pow_mod(3, 2243976593017578, order()) == 1417845010009718617);
    lemma_pow_mod_double(3, 2243976593017578, 1417845010009718617, order());
    assert(mul_mod(1417845010009718617, 1417845010009718617, order()) == 2470070795426373628);
    assert(pow_mod(3, 4487953186035156, order()) == 2470070795426373628);
    lemma_pow_mod_double(3, 4487953186035156, 2470070795426373628, order());
    assert(mul_mod(2470070795426373628, 2470070795426373628, order()) == 1023399516510069689);
    assert(pow_mod(3, 8975906372070312, order()) == 1023399516510069689);
    lemma_pow_mod_double(3, 8975906372070312, 1023399516510069689, order());
    assert(mul_mod(1023399516510069689, 1023399516510069689, order()) == 2133724219750111136);
    assert(mul_mod(2133724219750111136, 3, order()) == 1805508596750333407);
    assert(pow_mod(3, 17951812744140625, order()) == 1805508596750333407);
    lemma_pow_mod_double(3, 17951812744140625, 1805508596750333407, order());
    assert(mul_mod(1805508596750333407, 1805508596750333407, order()) == 850646127329493295);
    assert(pow_mod(3, 35903625488281250, order()) == 850646127329493295);
}

#[verifier::spinoff_prover]
proof fn lemma_witness_half_9()
    requires
        pow_mod(3, 35903625488281250, order()) == 850646127329493295,
    ensures
        pow_mod(3, 2297832031250000000, order()) == 4595664062500000000,
{
    lemma_pow_mod_double(3, 35903625488281250, 850646127329493295, order());
    assert(mul_mod(850646127329493295, 850646127329493295, order()) == 1200800253150855361);
    assert(pow_mod(3, 71807250976562500, order()) == 1200800253150855361);
    lemma_pow_mod_double(3, 71807250976562500, 1200800253150855361, order());
    assert(mul_mod(1200800253150855361, 1200800253150855361, order()) == 2387030306873415060);
    assert(pow_mod(3, 143614501953125000, order()) == 2387030306873415060);
    lemma_pow_mod_double(3, 143614501953125000, 2387030306873415060, order());
    assert(mul_mod(2387030306873415060, 2387030306873415060, order()) == 2187328151427709058);
    assert(pow_mod(3, 287229003906250000, order()) == 2187328151427709058);
    lemma_pow_mod_double(3, 287229003906250000, 2187328151427709058, order());
    assert(mul_mod(2187328151427709058, 2187328151427709058, order()) == 31627450352197542);
    assert(pow_mod(3, 574458007812500000, order()) == 31627450352197542);
    lemma_pow_mod_double(3, 574458007812500000, 31627450352197542, order());
    assert(mul_mod(31627450352197542, 31627450352197542, order()) == 4595664060356250001);
    assert(pow_mod(3, 1148916015625000000, order()) == 4595664060356250001);
    lemma_pow_mod_double(3, 1148916015625000000, 4595664060356250001, order());
    assert(mul_mod(4595664060356250001, 4595664060356250001, order()) == 4595664062500000000);
    assert(pow_mod(3, 2297832031250000000, order()) == 4595664062500000000);
}

/// Three raised to half the order less one, modulo the order.
pub proof fn lemma_witness_half()
    ensures
        pow_mod(3, 2297832031250000000, order()) == 4595664062500000000,
{
    lemma_pow_mod_small_exponents(3, order());
    lemma_small_mod(3, order());
    assert(pow_mod(3, 1, order()) == 3);
    lemma_witness_half_0();
    lemma_witness_half_1();
    lemma_witness_half_2();
    lemma_witness_half_3();
    lemma_witness_half_4();
    lemma_witness_half_5();
    lemma_witness_half_6();
    lemma_witness_half_7();
    lemma_witness_half_8();
    lemma_witness_half_9();
}

#[verifier::spinoff_prover]
proof fn lemma_witness_fifth_0()
    requires
        pow_mod(3, 1, order()) == 3,
    ensures
        pow_mod(3, 102, order()) == 3553526389198018635,
{
    lemma_pow_mod_double(3, 1, 3, order());
    assert(mul_mod(3, 3, order()) == 9);
    assert(mul_mod(9, 3, order()) == 27);
    assert(pow_mod(3, 3, order()) == 27);
    lemma_pow_mod_double(3, 3, 27, order());
    assert(mul_mod(27, 27, order()) == 729);
    assert(pow_mod(3, 6, order()) == 729);
    lemma_pow_mod_double(3, 6, 729, order());
    assert(mul_mod(729, 729, order()) == 531441);
    assert(pow_mod(3, 12, order()) == 531441);
    lemma_pow_mod_double(3, 12, 531441, order());
    assert(mul_mod(531441, 531441, order()) == 282429536481);
    assert(mul_mod(282429536481, 3, order()) == 847288609443);
    assert(pow_mod(3, 25, order()) == 847288609443);
    lemma_pow_mod_double(3, 25, 847288609443, order());
    assert(mul_mod(847288609443, 847288609443, order()) == 113160602588614037);
    assert(mul_mod(113160602588614037, 3, order()) == 339481807765842111);
    assert(pow_mod(3, 51, order()) == 339481807765842111);
    lemma_pow_mod_double(3, 51, 339481807765842111, order());
    assert(mul_mod(339481807765842111, 339481807765842111, order()) == 3553526389198018635);
    assert(pow_mod(3, 102, order()) == 3553526389198018635);
}

#[verifier::spinoff_prover]
proof fn lemma_witness_fifth_1()
    requires
        pow_mod(3, 102, order()) == 3553526389198018635,
    ensures
        pow_mod(3, 6530, order()) == 874735194028319361,
{
    lemma_pow_mod_double(3, 102, 3553526389198018635, order());
    assert(mul_mod(3553526389198018635, 3553526389198018635, order()) == 3891676160811064957);
    assert(pow_mod(3, 204, order()) == 3891676160811064957);
    lemma_pow_mod_double(3, 204, 3891676160811064957, order());
    assert(mul_mod(3891676160811064957, 3891676160811064957, order()) == 620822789778821689);
    assert(pow_mod(3, 408, order()) == 620822789778821689);
    lemma_pow_mod_double(3, 408, 620822789778821689, order());
    assert(mul_mod(620822789778821689, 620822789778821689, order()) == 3062499190808523904);
    assert(pow_mod(3, 816, order()) == 3062499190808523904);
    lemma_pow_mod_double(3, 816, 3062499190808523904, order());
    assert(mul_mod(3062499190808523904, 3062499190808523904, order()) == 3754600862781251035);
    assert(pow_mod(3, 1632, order()) == 3754600862781251035);
    lemma_pow_mod_double(3, 1632, 3754600862781251035, order());
    assert(mul_mod(3754600862781251035, 3754600862781251035, order()) == 4313276481119106162);
    assert(mul_mod(4313276481119106162, 3, order()) == 3748501318357318484);
    assert(pow_mod(3, 3265, order()) == 3748501318357318484);
    lemma_pow_mod_double(3, 3265, 3748501318357318484, order());
    assert(mul_mod(3748501318357318484, 3748501318357318484, order()) == 874735194028319361);
    assert(pow_mod(3, 6530, order()) == 874735194028319361);
}

#[verifier::spinoff_prover]
proof fn lemma_witness_fifth_2()
    requires
        pow_mod(3, 6530, order()) == 874735194028319361,
    ensures
        pow_mod(3, 417973, order()) == 2824903732839281494,
{
    lemma_pow_mod_double(3, 6530, 874735194028319361, order());
    assert(mul_mod(874735194028319361, 874735194028319361, order()) == 755184499253967247);
    assert(mul_mod(755184499253967247, 3, order()) == 2265553497761901741);
    assert(pow_mod(3, 13061, order()) == 2265553497761901741);
    lemma_pow_mod_double(3, 13061, 2265553497761901741, order());
    assert(mul_mod(2265553497761901741, 2265553497761901741, order()) == 4204662870292345389);
    assert(mul_mod(4204662870292345389, 3, order()) == 3422660485877036165);
    assert(pow_mod(3, 26123, order()) == 3422660485877036165);
    lemma_pow_mod_double(3, 26123, 3422660485877036165, order());
    assert(mul_mod(3422660485877036165, 3422660485877036165, order()) == 296297789316321581);
    assert(pow_mod(3, 52246, order()) == 296297789316321581);
    lemma_pow_mod_double(3, 52246, 296297789316321581, order());
    assert(mul_mod(296297789316321581, 296297789316321581, order()) == 473501416432966002);
    assert(mul_mod(473501416432966002, 3, order()) == 1420504249298898006);
    assert(pow_mod(3, 104493, order()) == 1420504249298898006);
    lemma_pow_mod_double(3, 104493, 1420504249298898006, order());
    assert(mul_mod(1420504249298898006, 1420504249298898006, order()) == 783123499869101565);
    assert(pow_mod(3, 208986, order()) == 783123499869101565);
    lemma_pow_mod_double(3, 208986, 783123499869101565, order());
    assert(mul_mod(783123499869101565, 783123499869101565, order()) == 2473522598446427165);
    assert(mul_mod(2473522598446427165, 3, order()) == 2824903732839281494);
    assert(pow_mod(3, 417973, order()) == 2824903732839281494);
}

#[verifier::spinoff_prover]
proof fn lemma_witness_fifth_3()
    requires
        pow_mod(3, 417973, order()) == 2824903732839281494,
    ensures
        pow_mod(3, 26750285, order()) == 3208136020209693752,
{
    lemma_pow_mod_double(3, 417973, 2824903732839281494, order());
    assert(mul_mod(2824903732839281494, 2824903732839281494, order()) == 3304821396062802688);
    assert(pow_mod(3, 835946, order()) == 3304821396062802688);
    lemma_pow_mod_double(3, 835946, 3304821396062802688, order());
    assert(mul_mod(3304821396062802688, 3304821396062802688, order()) == 4298955557294667722);
    assert(pow_mod(3, 1671892, order()) == 4298955557294667722);
    lemma_pow_mod_double(3, 1671892, 4298955557294667722, order());
    assert(mul_mod(4298955557294667722, 4298955557294667722, order()) == 200194268473833608);
    assert(mul_mod(200194268473833608, 3, order()) == 600582805421500824);
    assert(pow_mod(3, 3343785, order()) == 600582805421500824);
    lemma_pow_mod_double(3, 3343785, 600582805421500824, order());
    assert(mul_mod(600582805421500824, 600582805421500824, order()) == 977177686105387761);
    assert(mul_mod(977177686105387761, 3, order()) == 2931533058316163283);
    assert(pow_mod(3, 6687571, order()) == 2931533058316163283);
    lemma_pow_mod_double(3, 6687571, 2931533058316163283, order());
    assert(mul_mod(2931533058316163283, 2931533058316163283, order()) == 2901907420229471211);
    assert(pow_mod(3, 13375142, order()) == 2901907420229471211);
    lemma_pow_mod_double(3, 13375142, 2901907420229471211, order());
    assert(mul_mod(2901907420229471211, 2901907420229471211, order()) == 4133154715069897918);
    assert(mul_mod(4133154715069897918, 3, order()) == 3208136020209693752);
    assert(pow_mod(3, 26750285, order()) == 3208136020209693752);
}

#[verifier::spinoff_prover]
proof fn lemma_witness_fifth_4()
    requires
        pow_mod(3, 26750285, order()) == 3208136020209693752,
    ensures
        pow_mod(3, 1712018274, order()) == 2167853364185344656,
{
    lemma_pow_mod_double(3, 26750285, 3208136020209693752, order());
    assert(mul_mod(3208136020209693752, 3208136020209693752, order()) == 70749175727103546);
    assert(mul_mod(70749175727103546, 3, order()) == 212247527181310638);
    assert(pow_mod(3, 53500571, order()) == 212247527181310638);
    lemma_pow_mod_double(3, 53500571, 212247527181310638, order());
    assert(mul_mod(212247527181310638, 212247527181310638, order()) == 2769858621009172982);
    assert(pow_mod(3, 107001142, order()) == 2769858621009172982);
    lemma_pow_mod_double(3, 107001142, 2769858621009172982, order());
    assert(mul_mod(2769858621009172982, 2769858621009172982, order()) == 3802864721701924612);
    assert(pow_mod(3, 214002284, order()) == 3802864721701924612);
    lemma_pow_mod_double(3, 214002284, 3802864721701924612, order());
    assert(mul_mod(3802864721701924612, 3802864721701924612, order()) == 1695568239725310144);
    assert(pow_mod(3, 428004568, order()) == 1695568239725310144);
    lemma_pow_mod_double(3, 428004568, 1695568239725310144, order());
    assert(mul_mod(1695568239725310144, 1695568239725310144, order()) == 48500353794426302);
    assert(mul_mod(48500353794426302, 3, order()) == 145501061383278906);
    assert(pow_mod(3, 856009137, order()) == 145501061383278906);
    lemma_pow_mod_double(3, 856009137, 145501061383278906, order());
    assert(mul_mod(145501061383278906, 145501061383278906, order()) == 2167853364185344656);
    assert(pow_mod(3, 1712018274, order()) == 2167853364185344656);
}

#[verifier::spinoff_prover]
proof fn lemma_witness_fifth_5()
    requires
        pow_mod(3, 1712018274, order()) == 2167853364185344656,
    ensures
        pow_mod(3, 109569169580, order()) == 3038171641936042410,
{
    lemma_pow_mod_double(3, 1712018274, 2167853364185344656, order());
    assert(mul_mod(2167853364185344656, 2167853364185344656, order()) == 3542011250937381673);
    assert(mul_mod(3542011250937381673, 3, order()) == 1434705627812145017);
    assert(pow_mod(3, 3424036549, order()) == 1434705627812145017);
    lemma_pow_mod_double(3, 3424036549, 1434705627812145017, order());
    assert(mul_mod(1434705627812145017, 1434705627812145017, order()) == 127129697032055745);
    assert(pow_mod(3, 6848073098, order()) == 127129697032055745);
    lemma_pow_mod_double(3, 6848073098, 127129697032055745, order());
    assert(mul_mod(127129697032055745, 127129697032055745, order()) == 1251640253847288496);
    assert(mul_mod(1251640253847288496, 3, order()) == 3754920761541865488);
    assert(pow_mod(3, 13696146197, order()) == 3754920761541865488);
    lemma_pow_mod_double(3, 13696146197, 3754920761541865488, order());
    assert(mul_mod(3754920761541865488, 3754920761541865488, order()) == 4115184988063731574);
    assert(mul_mod(4115184988063731574, 3, order()) == 3154226839191194720);
    assert(pow_mod(3, 27392292395, order()) == 3154226839191194720);
    lemma_pow_mod_double(3, 27392292395, 3154226839191194720, order());
    assert(mul_mod(3154226839191194720, 3154226839191194720, order()) == 3934719737294786349);
    assert(pow_mod(3, 54784584790, order()) == 3934719737294786349);
    lemma_pow_mod_double(3, 54784584790, 3934719737294786349, order());
    assert(mul_mod(3934719737294786349, 3934719737294786349, order()) == 3038171641936042410);
    assert(pow_mod(3, 109569169580, order()) == 3038171641936042410);
}

#[verifier::spinoff_prover]
proof fn lemma_witness_fifth_6()
    requires
        pow_mod(3, 109569169580, order()) == 3038171641936042410,
    ensures
        pow_mod(3, 7012426853179, order()) == 3467241925364064153,
{
    lemma_pow_mod_double(3, 109569169580, 3038171641936042410, order());
    assert(mul_mod(3038171641936042410, 3038171641936042410, order()) == 687423886343964831);
    assert(mul_mod(687423886343964831, 3, order()) == 2062271659031894493);
    assert(pow_mod(3, 219138339161, order()) == 2062271659031894493);
    lemma_pow_mod_double(3, 219138339161, 2062271659031894493, order());
    assert(mul_mod(2062271659031894493, 2062271659031894493, order()) == 4553446187282539960);
    assert(mul_mod(4553446187282539960, 3, order()) == 4469010436847619878);
    assert(pow_mod(3, 438276678323, order()) == 4469010436847619878);
    lemma_pow_mod_double(3, 438276678323, 4469010436847619878, order());
    assert(mul_mod(4469010436847619878, 4469010436847619878, order()) == 2785112017720798728);
    assert(mul_mod(2785112017720798728, 3, order()) == 3759671990662396183);
    assert(pow_mod(3, 876553356647, order()) == 3759671990662396183);
    lemma_pow_mod_double(3, 876553356647, 3759671990662396183, order());
    assert(mul_mod(3759671990662396183, 3759671990662396183, order()) == 3083769311022827898);
    assert(pow_mod(3, 1753106713294, order()) == 3083769311022827898);
    lemma_pow_mod_double(3, 1753106713294, 3083769311022827898, order());
    assert(mul_mod(3083769311022827898, 3083769311022827898, order()) == 2116507510349941858);
    assert(mul_mod(2116507510349941858, 3, order()) == 1753858468549825573);
    assert(pow_mod(3, 3506213426589, order()) == 1753858468549825573);
    lemma_pow_mod_double(3, 3506213426589, 1753858468549825573, order());
    assert(mul_mod(1753858468549825573, 1753858468549825573, order()) == 1155747308454688051);
    assert(mul_mod(1155747308454688051, 3, order()) == 3467241925364064153);
    assert(pow_mod(3, 7012426853179, order()) == 3467241925364064153);
}

#[verifier::spinoff_prover]
proof fn lemma_witness_fifth_7()
    requires
        pow_mod(3, 7012426853179, order()) == 3467241925364064153,
    ensures
        pow_mod(3, 448795318603515, order()) == 2999790118756853760,
{
    lemma_pow_mod_double(3, 7012426853179, 3467241925364064153, order());
    assert(mul_mod(3467241925364064153, 3467241925364064153, order()) == 4264820701823218772);
    assert(mul_mod(4264820701823218772, 3, order()) == 3603133980469656314);
    assert(pow_mod(3, 14024853706359, order()) == 3603133980469656314);
    lemma_pow_mod_double(3, 14024853706359, 3603133980469656314, order());
    assert(mul_mod(3603133980469656314, 3603133980469656314, order()) == 1693249273033980298);
    assert(mul_mod(1693249273033980298, 3, order()) == 484083756601940893);
    assert(pow_mod(3, 28049707412719, order()) == 484083756601940893);
    lemma_pow_mod_double(3, 28049707412719, 484083756601940893, order());
    assert(mul_mod(484083756601940893, 484083756601940893, order()) == 3927507021666507095);
    assert(mul_mod(3927507021666507095, 3, order()) == 2591192939999521283);
    assert(pow_mod(3, 56099414825439, order()) == 2591192939999521283);
    lemma_pow_mod_double(3, 56099414825439, 2591192939999521283, order());
    assert(mul_mod(2591192939999521283, 2591192939999521283, order()) == 2577094924764968298);
    assert(pow_mod(3, 112198829650878, order()) == 2577094924764968298);
    lemma_pow_mod_double(3, 112198829650878, 2577094924764968298, order());
    assert(mul_mod(2577094924764968298, 2577094924764968298, order()) == 396825809427804122);
    assert(mul_mod(396825809427804122, 3, order()) == 1190477428283412366);
    assert(pow_mod(3, 224397659301757, order()) == 1190477428283412366);
    lemma_pow_mod_double(3, 224397659301757, 1190477428283412366, order());
    assert(mul_mod(1190477428283412366, 1190477428283412366, order()) == 999930039585617920);
    assert(mul_mod(999930039585617920, 3, order()) == 2999790118756853760);
    assert(pow_mod(3, 448795318603515, order()) == 2999790118756853760);
}

#[verifier::spinoff_prover]
proof fn lemma_witness_fifth_8()
    requires
        pow_mod(3, 448795318603515, order()) == 2999790118756853760,
    ensures
        pow_mod(3, 28722900390625000, order()) == 2450864021620937865,
{
    lemma_pow_mod_double(3, 448795318603515, 2999790118756853760, order());
    assert(mul_mod(2999790118756853760, 2999790118756853760, order()) == 1166693168937601150);
    assert(mul_mod(1166693168937601150, 3, order()) == 3500079506812803450);
    assert(pow_mod(3, 897590637207031, order()) == 3500079506812803450);
    lemma_pow_mod_double(3, 897590637207031, 3500079506812803450, order());
    assert(mul_mod(3500079506812803450, 3500079506812803450, order()) == 1435132475851639088);
    assert(pow_mod(3, 1795181274414062, order()) == 1435132475851639088);
    lemma_pow_mod_double(3, 1795181274414062, 1435132475851639088, order());
    assert(mul_mod(1435132475851639088, 1435132475851639088, order()) == 4456265471816146519);
    assert(mul_mod(4456265471816146519, 3, order()) == 4177468290448439555);
    assert(pow_mod(3, 3590362548828125, order()) == 4177468290448439555);
    lemma_pow_mod_double(3, 3590362548828125, 4177468290448439555, order());
    assert(mul_mod(4177468290448439555, 4177468290448439555, order()) == 2220786229659602213);
    assert(pow_mod(3, 7180725097656250, order()) == 2220786229659602213);
    lemma_pow_mod_double(3, 7180725097656250, 2220786229659602213, order());
    assert(mul_mod(2220786229659602213, 2220786229659602213, order()) == 2170203379986264291);
    assert(pow_mod(3, 14361450195312500, order()) == 2170203379986264291);
    lemma_pow_mod_double(3, 14361450195312500, 2170203379986264291, order());
    assert(mul_mod(2170203379986264291, 2170203379986264291, order()) == 2450864021620937865);
    assert(pow_mod(3, 28722900390625000, order()) == 2450864021620937865);
}

#[verifier::spinoff_prover]
proof fn lemma_witness_fifth_9()
    requires
        pow_mod(3, 28722900390625000, order()) == 2450864021620937865,
    ensures
        pow_mod(3, 919132812500000000, order()) == 3897968077947593762,
{
    lemma_pow_mod_double(3, 28722900390625000, 2450864021620937865, order());
    assert(mul_mod(2450864021620937865, 2450864021620937865, order()) == 3025270936555525467);
    assert(pow_mod(3, 57445800781250000, order()) == 3025270936555525467);
    lemma_pow_mod_double(3, 57445800781250000, 3025270936555525467, order());
    assert(mul_mod(3025270936555525467, 3025270936555525467, order()) == 2143783242203009950);
    assert(pow_mod(3, 114891601562500000, order()) == 2143783242203009950);
    lemma_pow_mod_double(3, 114891601562500000, 2143783242203009950, order());
    assert(mul_mod(2143783242203009950, 2143783242203009950, order()) == 3935986888924545429);
    assert(pow_mod(3, 229783203125000000, order()) == 3935986888924545429);
    lemma_pow_mod_double(3, 229783203125000000, 3935986888924545429, order());
    assert(mul_mod(3935986888924545429, 3935986888924545429, order()) == 236124019760534583);
    assert(pow_mod(3, 459566406250000000, order()) == 236124019760534583);
    lemma_pow_mod_double(3, 459566406250000000, 236124019760534583, order());
    assert(mul_mod(236124019760534583, 236124019760534583, order()) == 3897968077947593762);
    assert(pow_mod(3, 919132812500000000, order()) == 3897968077947593762);
}

/// Three raised to a fifth of the order less one, modulo the order.
pub proof fn lemma_witness_fifth()
    ensures
        pow_mod(3, 919132812500000000, order()) == 3897968077947593762,
{
    lemma_pow_mod_small_exponents(3, order());
    lemma_small_mod(3, order());
    assert(pow_mod(3, 1, order()) == 3);
    lemma_witness_fifth_0();
    lemma_witness_fifth_1();
    lemma_witness_fifth_2();
    lemma_witness_fifth_3();
    lemma_witness_fifth_4();
    lemma_witness_fifth_5();
    lemma_witness_fifth_6();
    lemma_witness_fifth_7();
    lemma_witness_fifth_8();
    lemma_witness_fifth_9();
}

#[verifier::spinoff_prover]
proof fn lemma_witness_seventh_0()
    requires
        pow_mod(3, 1, order()) == 3,
    ensures
        pow_mod(3, 72, order()) == 2826234924018425007,
{
    lemma_pow_mod_double(3, 1, 3, order());
    assert(mul_mod(3, 3, order()) == 9);
    assert(pow_mod(3, 2, order()) == 9);
    lemma_pow_mod_double(3, 2, 9, order());
    assert(mul_mod(9, 9, order()) == 81);
    assert(pow_mod(3, 4, order()) == 81);
    lemma_pow_mod_double(3, 4, 81, order());
    assert(mul_mod(81, 81, order()) == 6561);
    assert(mul_mod(6561, 3, order()) == 19683);
    assert(pow_mod(3, 9, order()) == 19683);
    lemma_pow_mod_double(3, 9, 19683, order());
    assert(mul_mod(19683, 19683, order()) == 387420489);
    assert(pow_mod(3, 18, order()) == 387420489);
    lemma_pow_mod_double(3, 18, 387420489, order());
    assert(mul_mod(387420489, 387420489, order()) == 150094635296999121);
    assert(pow_mod(3, 36, order()) == 150094635296999121);
    lemma_pow_mod_double(3, 36, 150094635296999121, order());
    assert(mul_mod(150094635296999121, 150094635296999121, order()) == 2826234924018425007);
    assert(pow_mod(3, 72, order()) == 2826234924018425007);
}

#[verifier::spinoff_prover]
proof fn lemma_witness_seventh_1()
    requires
        pow_mod(3, 72, order()) == 2826234924018425007,
    ensures
        pow_mod(3, 4664, order()) == 3170288904407316135,
{
    lemma_pow_mod_double(3, 72, 2826234924018425007, order());
    assert(mul_mod(2826234924018425007, 2826234924018425007, order()) == 3237977935769271448);
    assert(mul_mod(3237977935769271448, 3, order()) == 522605682307814342);
    assert(pow_mod(3, 145, order()) == 522605682307814342);
    lemma_pow_mod_double(3, 145, 522605682307814342, order());
    assert(mul_mod(522605682307814342, 522605682307814342, order()) == 37113881481251539);
    assert(mul_mod(37113881481251539, 3, order()) == 111341644443754617);
    assert(pow_mod(3, 291, order()) == 111341644443754617);
    lemma_pow_mod_double(3, 291, 111341644443754617, order());
    assert(mul_mod(111341644443754617, 111341644443754617, order()) == 2376125384233187058);
    assert(mul_mod(2376125384233187058, 3, order()) == 2532712090199561173);
    assert(pow_mod(3, 583, order()) == 2532712090199561173);
    lemma_pow_mod_double(3, 583, 2532712090199561173, order());
    assert(mul_mod(2532712090199561173, 2532712090199561173, order()) == 1463168478749547405);
    assert(pow_mod(3, 1166, order()) == 1463168478749547405);
    lemma_pow_mod_double(3, 1166, 1463168478749547405, order());
    assert(mul_mod(1463168478749547405, 1463168478749547405, order()) == 4204892233174239587);
    assert(pow_mod(3, 2332, order()) == 4204892233174239587);
    lemma_pow_mod_double(3, 2332, 4204892233174239587, order());
    assert(mul_mod(4204892233174239587, 4204892233174239587, order()) == 3170288904407316135);
    assert(pow_mod(3, 4664, order()) == 3170288904407316135);
}

#[verifier::spinoff_prover]
proof fn lemma_witness_seventh_2()
    requires
        pow_mod(3, 4664, order()) == 3170288904407316135,
    ensures
        pow_mod(3, 298552, order()) == 4483188914806562410,
{
    lemma_pow_mod_double(3, 4664, 3170288904407316135, order());
    assert(mul_mod(3170288904407316135, 3170288904407316135, order()) == 172344748323145159);
    assert(mul_mod(172344748323145159, 3, order()) == 517034244969435477);
    assert(pow_mod(3, 9329, order()) == 517034244969435477);
    lemma_pow_mod_double(3, 9329, 517034244969435477, order());
    assert(mul_mod(517034244969435477, 517034244969435477, order()) == 666194463133429967);
    assert(mul_mod(666194463133429967, 3, order()) == 1998583389400289901);
    assert(pow_mod(3, 18659, order()) == 1998583389400289901);
    lemma_pow_mod_double(3, 18659, 1998583389400289901, order());
    assert(mul_mod(1998583389400289901, 1998583389400289901, order()) == 1806250405057816273);
    assert(mul_mod(1806250405057816273, 3, order()) == 823087152673448818);
    assert(pow_mod(3, 37319, order()) == 823087152673448818);
    lemma_pow_mod_double(3, 37319, 823087152673448818, order());
    assert(mul_mod(823087152673448818, 823087152673448818, order()) == 109156032331598686);
    assert(pow_mod(3, 74638, order()) == 109156032331598686);
    lemma_pow_mod_double(3, 74638, 109156032331598686, order());
    assert(mul_mod(109156032331598686, 109156032331598686, order()) == 3788845735263761745);
    assert(pow_mod(3, 149276, order()) == 3788845735263761745);
    lemma_pow_mod_double(3, 149276, 3788845735263761745, order());
    assert(mul_mod(3788845735263761745, 3788845735263761745, order()) == 4483188914806562410);
    assert(pow_mod(3, 298552, order()) == 4483188914806562410);
}

#[verifier::spinoff_prover]
proof fn lemma_witness_seventh_3()
    requires
        pow_mod(3, 298552, order()) == 4483188914806562410,
    ensures
        pow_mod(3, 19107346, order()) == 4345248708090443404,
{
    lemma_pow_mod_double(3, 298552, 4483188914806562410, order());
    assert(mul_mod(4483188914806562410, 4483188914806562410, order()) == 522290646166590832);
    assert(pow_mod(3, 597104, order()) == 522290646166590832);
    lemma_pow_mod_double(3, 597104, 522290646166590832, order());
    assert(mul_mod(522290646166590832, 522290646166590832, order()) == 2421731739556290782);
    assert(mul_mod(2421731739556290782, 3, order()) == 2669531156168872345);
    assert(pow_mod(3, 1194209, order()) == 2669531156168872345);
    lemma_pow_mod_double(3, 1194209, 2669531156168872345, order());
    assert(mul_mod(2669531156168872345, 2669531156168872345, order()) == 1736713696296582649);
    assert(pow_mod(3, 2388418, order()) == 1736713696296582649);
    lemma_pow_mod_double(3, 2388418, 1736713696296582649, order());
    assert(mul_mod(1736713696296582649, 1736713696296582649, order()) == 2998259879154028176);
    assert(pow_mod(3, 4776836, order()) == 2998259879154028176);
    lemma_pow_mod_double(3, 4776836, 2998259879154028176, order());
    assert(mul_mod(2998259879154028176, 2998259879154028176, order()) == 3463298355473059468);
    assert(mul_mod(3463298355473059468, 3, order()) == 1198566941419178402);
    assert(pow_mod(3, 9553673, order()) == 1198566941419178402);
    lemma_pow_mod_double(3, 9553673, 1198566941419178402, order());
    assert(mul_mod(1198566941419178402, 1198566941419178402, order()) == 4345248708090443404);
    assert(pow_mod(3, 19107346, order()) == 4345248708090443404);
}

#[verifier::spinoff_prover]
proof fn lemma_witness_seventh_4()
    requires
        pow_mod(3, 19107346, order()) == 4345248708090443404,
    ensures
        pow_mod(3, 1222870196, order()) == 3884937674767903862,
{
    lemma_pow_mod_double(3, 19107346, 4345248708090443404, order());
    assert(mul_mod(4345248708090443404, 4345248708090443404, order()) == 2847351966688812916);
    assert(mul_mod(2847351966688812916, 3, order()) == 3946391837566438747);
    assert(pow_mod(3, 38214693, order()) == 3946391837566438747);
    lemma_pow_mod_double(3, 38214693, 3946391837566438747, order());
    assert(mul_mod(3946391837566438747, 3946391837566438747, order()) == 609581928251605864);
    assert(mul_mod(609581928251605864, 3, order()) == 1828745784754817592);
    assert(pow_mod(3, 76429387, order()) == 1828745784754817592);
    lemma_pow_mod_double(3, 76429387, 1828745784754817592, order());
    assert(mul_mod(1828745784754817592, 1828745784754817592, order()) == 3495416255201042760);
    assert(pow_mod(3, 152858774, order()) == 3495416255201042760);
    lemma_pow_mod_double(3, 152858774, 3495416255201042760, order());
    assert(mul_mod(3495416255201042760, 3495416255201042760, order()) == 625045171043602082);
    assert(mul_mod(625045171043602082, 3, order()) == 1875135513130806246);
    assert(pow_mod(3, 305717549, order()) == 1875135513130806246);
    lemma_pow_mod_double(3, 305717549, 1875135513130806246, order());
    assert(mul_mod(1875135513130806246, 1875135513130806246, order()) == 520445398898226671);
    assert(pow_mod(3, 611435098, order()) == 520445398898226671);
    lemma_pow_mod_double(3, 611435098, 520445398898226671, order());
    assert(mul_mod(520445398898226671, 520445398898226671, order()) == 3884937674767903862);
    assert(pow_mod(3, 1222870196, order()) == 3884937674767903862);
}

#[verifier::spinoff_prover]
proof fn lemma_witness_seventh_5()
    requires
        pow_mod(3, 1222870196, order()) == 3884937674767903862,
    ensures
        pow_mod(3, 78263692557, order()) == 3689944766372875268,
{
    lemma_pow_mod_double(3, 1222870196, 3884937674767903862, order());
    assert(mul_mod(3884937674767903862, 3884937674767903862, order()) == 3935414433522317257);
    assert(pow_mod(3, 2445740392, order()) == 3935414433522317257);
    lemma_pow_mod_double(3, 2445740392, 3935414433522317257, order());
    assert(mul_mod(3935414433522317257, 3935414433522317257, order()) == 1614193739560901639);
    assert(pow_mod(3, 4891480784, order()) == 1614193739560901639);
    lemma_pow_mod_double(3, 4891480784, 1614193739560901639, order());
    assert(mul_mod(1614193739560901639, 1614193739560901639, order()) == 2591397597786642295);
    assert(mul_mod(2591397597786642295, 3, order()) == 3178528730859926884);
    assert(pow_mod(3, 9782961569, order()) == 3178528730859926884);
    lemma_pow_mod_double(3, 9782961569, 3178528730859926884, order());
    assert(mul_mod(3178528730859926884, 3178528730859926884, order()) == 27998840504343252);
    assert(mul_mod(27998840504343252, 3, order()) == 83996521513029756);
    assert(pow_mod(3, 19565923139, order()) == 83996521513029756);
    lemma_pow_mod_double(3, 19565923139, 83996521513029756, order());
    assert(mul_mod(83996521513029756, 83996521513029756, order()) == 3817997049432485376);
    assert(pow_mod(3, 39131846278, order()) == 3817997049432485376);
    lemma_pow_mod_double(3, 39131846278, 3817997049432485376, order());
    assert(mul_mod(3817997049432485376, 3817997049432485376, order()) == 4293757630457625090);
    assert(mul_mod(4293757630457625090, 3, order()) == 3689944766372875268);
    assert(pow_mod(3, 78263692557, order()) == 3689944766372875268);
}

#[verifier::spinoff_prover]
proof fn lemma_witness_seventh_6()
    requires
        pow_mod(3, 78263692557, order()) == 3689944766372875268,
    ensures
        pow_mod(3, 5008876323699, order()) == 1278275974350590658,
{
    lemma_pow_mod_double(3, 78263692557, 3689944766372875268, order());
    assert(mul_mod(3689944766372875268, 3689944766372875268, order()) == 1205657889816538978);
    assert(mul_mod(1205657889816538978, 3, order()) == 3616973669449616934);
    assert(pow_mod(3, 156527385115, order()) == 3616973669449616934);
    lemma_pow_mod_double(3, 156527385115, 3616973669449616934, order());
    assert(mul_mod(3616973669449616934, 3616973669449616934, order()) == 2873456745820229418);
    assert(mul_mod(2873456745820229418, 3, order()) == 4024706174960688253);
    assert(pow_mod(3, 313054770231, order()) == 4024706174960688253);
    lemma_pow_mod_double(3, 313054770231, 4024706174960688253, order());
    assert(mul_mod(4024706174960688253, 4024706174960688253, order()) == 4351236789383331497);
    assert(pow_mod(3, 626109540462, order()) == 4351236789383331497);
    lemma_pow_mod_double(3, 626109540462, 4351236789383331497, order());
    assert(mul_mod(4351236789383331497, 4351236789383331497, order()) == 1357514868384308998);
    assert(pow_mod(3, 1252219080924, order()) == 1357514868384308998);
    lemma_pow_mod_double(3, 1252219080924, 1357514868384308998, order());
    assert(mul_mod(1357514868384308998, 1357514868384308998, order()) == 2991053313839429287);
    assert(mul_mod(2991053313839429287, 3, order()) == 4377495879018287860);
    assert(pow_mod(3, 2504438161849, order()) == 4377495879018287860);
    lemma_pow_mod_double(3, 2504438161849, 4377495879018287860, order());
    assert(mul_mod(4377495879018287860, 4377495879018287860, order()) == 426091991450196886);
    assert(mul_mod(426091991450196886, 3, order()) == 1278275974350590658);
    assert(pow_mod(3, 5008876323699, order()) == 1278275974350590658);
}

#[verifier::spinoff_prover]
proof fn lemma_witness_seventh_7()
    requires
        pow_mod(3, 5008876323699, order()) == 1278275974350590658,
    ensures
        pow_mod(3, 320568084716796, order()) == 3967443472174352375,
{
    lemma_pow_mod_double(3, 5008876323699, 1278275974350590658, order());
    assert(mul_mod(1278275974350590658, 1278275974350590658, order()) == 834115352123270564);
    assert(mul_mod(834115352123270564, 3, order()) == 2502346056369811692);
    assert(pow_mod(3, 10017752647399, order()) == 2502346056369811692);
    lemma_pow_mod_double(3, 10017752647399, 2502346056369811692, order());
    assert(mul_mod(2502346056369811692, 2502346056369811692, order()) == 4312159216308609364);
    assert(mul_mod(4312159216308609364, 3, order()) == 3745149523925828090);
    assert(pow_mod(3, 20035505294799, order()) == 3745149523925828090);
    lemma_pow_mod_double(3, 20035505294799, 3745149523925828090, order());
    assert(mul_mod(3745149523925828090, 3745149523925828090, order()) == 4053253820825122545);
    assert(mul_mod(4053253820825122545, 3, order()) == 2968433337475367633);
    assert(pow_mod(3, 40071010589599, order()) == 2968433337475367633);
    lemma_pow_mod_double(3, 40071010589599, 2968433337475367633, order());
    assert(mul_mod(2968433337475367633, 2968433337475367633, order()) == 642104333799967954);
    assert(mul_mod(642104333799967954, 3, order()) == 1926313001399903862);
    assert(pow_mod(3, 80142021179199, order()) == 1926313001399903862);
    lemma_pow_mod_double(3, 80142021179199, 1926313001399903862, order());
    assert(mul_mod(1926313001399903862, 1926313001399903862, order()) == 2667935227765314779);
    assert(pow_mod(3, 160284042358398, order()) == 2667935227765314779);
    lemma_pow_mod_double(3, 160284042358398, 2667935227765314779, order());
    assert(mul_mod(2667935227765314779, 2667935227765314779, order()) == 3967443472174352375);
    assert(pow_mod(3, 320568084716796, order()) == 3967443472174352375);
}

#[verifier::spinoff_prover]
proof fn lemma_witness_seventh_8()
    requires
        pow_mod(3, 320568084716796, order()) == 3967443472174352375,
    ensures
        pow_mod(3, 20516357421875000, order()) == 2485405527474201447,
{
    lemma_pow_mod_double(3, 320568084716796, 3967443472174352375, order());
    assert(mul_mod(3967443472174352375, 3967443472174352375, order()) == 4223230090727564354);
    assert(mul_mod(4223230090727564354, 3, order()) == 3478362147182693060);
    assert(pow_mod(3, 641136169433593, order()) == 3478362147182693060);
    lemma_pow_mod_double(3, 641136169433593, 3478362147182693060, order());
    assert(mul_mod(3478362147182693060, 3478362147182693060, order()) == 859204856531538450);
    assert(mul_mod(859204856531538450, 3, order()) == 2577614569594615350);
    assert(pow_mod(3, 1282272338867187, order()) == 2577614569594615350);
    lemma_pow_mod_double(3, 1282272338867187, 2577614569594615350, order());
    assert(mul_mod(2577614569594615350, 2577614569594615350, order()) == 432950965248933842);
    assert(mul_mod(432950965248933842, 3, order()) == 1298852895746801526);
    assert(pow_mod(3, 2564544677734375, order()) == 1298852895746801526);
    lemma_pow_mod_double(3, 2564544677734375, 1298852895746801526, order());
    assert(mul_mod(1298852895746801526, 1298852895746801526, order()) == 933026003082177239);
    assert(pow_mod(3, 5129089355468750, order()) == 933026003082177239);
    lemma_pow_mod_double(3, 5129089355468750, 933026003082177239, order());
    assert(mul_mod(933026003082177239, 933026003082177239, order()) == 653787443255787805);
    assert(pow_mod(3, 10258178710937500, order()) == 653787443255787805);
    lemma_pow_mod_double(3, 10258178710937500, 653787443255787805, order());
    assert(mul_mod(653787443255787805, 653787443255787805, order()) == 2485405527474201447);
    assert(pow_mod(3, 20516357421875000, order()) == 2485405527474201447);
}

#[verifier::spinoff_prover]
proof fn lemma_witness_seventh_9()
    requires
        pow_mod(3, 20516357421875000, order()) == 2485405527474201447,
    ensures
        pow_mod(3, 656523437500000000, order()) == 2248704570175439916,
{
    lemma_pow_mod_double(3, 20516357421875000, 2485405527474201447, order());
    assert(mul_mod(2485405527474201447, 2485405527474201447, order()) == 1574593328842279098);
    assert(pow_mod(3, 41032714843750000, order()) == 1574593328842279098);
    lemma_pow_mod_double(3, 41032714843750000, 1574593328842279098, order());
    assert(mul_mod(1574593328842279098, 1574593328842279098, order()) == 3022535231309405240);
    assert(pow_mod(3, 82065429687500000, order()) == 3022535231309405240);
    lemma_pow_mod_double(3, 82065429687500000, 3022535231309405240, order());
    assert(mul_mod(3022535231309405240, 3022535231309405240, order()) == 4512782467131919451);
    assert(pow_mod(3, 164130859375000000, order()) == 4512782467131919451);
    lemma_pow_mod_double(3, 164130859375000000, 4512782467131919451, order());
    assert(mul_mod(4512782467131919451, 4512782467131919451, order()) == 2107771168465716582);
    assert(pow_mod(3, 328261718750000000, order()) == 2107771168465716582);
    lemma_pow_mod_double(3, 328261718750000000, 2107771168465716582, order());
    assert(mul_mod(2107771168465716582, 2107771168465716582, order()) == 2248704570175439916);
    assert(pow_mod(3, 656523437500000000, order()) == 2248704570175439916);
}

/// Three raised to a seventh of the order less one, modulo the order.
pub proof fn lemma_witness_seventh()
    ensures
        pow_mod(3, 656523437500000000, order()) == 2248704570175439916,
{
    lemma_pow_mod_small_exponents(3, order());
    lemma_small_mod(3, order());
    assert(pow_mod(3, 1, order()) == 3);
    lemma_witness_seventh_0();
    lemma_witness_seventh_1();
    lemma_witness_seventh_2();
    lemma_witness_seventh_3();
    lemma_witness_seventh_4();
    lemma_witness_seventh_5();
    lemma_witness_seventh_6();
    lemma_witness_seventh_7();
    lemma_witness_seventh_8();
    lemma_witness_seventh_9();
}

} // verus!
