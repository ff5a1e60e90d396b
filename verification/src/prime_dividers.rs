//! The magic multipliers that divide 64-bit integers by the odd primes
//! below 2^16, as a table.
use vstd::prelude::*;

verus! {

/// Magic multipliers for 64-bit division by the odd primes, from index 0 on.
const MAGIC_U64_0: [u64; 128] = [
    6148914691236517206, 11068046444225730970, 2635249153387078803, 8384883669867978008, 4256940940086819604, 16276538888567251426,
    12621456471485482685, 7218291159277650633, 1908283869694091547, 595056260442243601, 13461137567301564693, 10348173504763894809,
    9008875012741874046, 6672226579852391011, 3828569524732171091, 1563283396077080646, 907216921657846801, 16794796843228099233,
    14809357918330203411, 13898231836356511492, 11441651387490734547, 10001246786950961720, 8083404706456994529, 5895351198814392785,
    4931307821684731621, 4477365066434357189, 3620389023812154991, 3215487499086986062, 2448682841642860834, 145249953336295683,
    17601855032165602688, 16023084268404647025, 15527115515280701720, 13246990710650483376, 12827206143970218012, 11632023333103475223,
    10524829440828149082, 9830899536288323916, 8850172012242154822, 7935191584780086450, 7643678483581305919, 6277687773775501859,
    6021476044786019440, 5524659392633825104, 5283740764831379107, 3934139731359856980, 2729787239607243065, 2356632502808709238,
    2174943624411169842, 1820923234743861319, 1312111503150888609, 1148137597948727280, 367465021388636487, 18303189645120372226,
    17464788115413225675, 16663787397440226925, 16404669084000007157, 15649764827876334404, 15164405270558385849, 14926870646217269683,
    13787839427107139263, 12317858420555238050, 11922172214841221463, 11728121631527797993, 11347366228307137430, 10087192378675011609,
    9579169771214158852, 8771506548017510135, 8615528034425951042, 8308873392973990672, 7861704298823290801, 7288223135389332383,
    6874255834438680093, 6473395677581452151, 6213133121432198848, 5832775118422300383, 5343515285835260544, 5106205965540549201,
    4645512566239813733, 4094384722804268020, 3987300975552420896, 3466789489490658193, 3365572244395045215, 3067454025924367354,
    2873194900871239417, 2588295939072832410, 2220067667514278641, 2040746090583920027, 1952247212984380193, 1777523518879935381,
    1270861282739906479, 946958114666814765, 788964614150510355, 480576498914276896, 330061027163789194, 108723442477659440,
    17809428539493098778, 17670781607893853461, 16469089441038287303, 16086100407969755249, 15466121153361509165, 15104705182913149725,
    14750911341894281170, 14634632338687262491, 14290631890724730628, 13732925315521420880, 13407330009728190129, 13088257481346509912,
    12983315712444493068, 12672639668429790814, 12368045374053223025, 12168273643435636156, 12069355977144375452, 11489018099790576522,
    11022001529221151746, 10930341356272689216, 10748721044495364698, 10480462559488887672, 10217088902737460304, 10130360209919163747,
    9620813031013451140, 9454978129360730297, 9209867831822777601, 8889675508748597234, 8499712319269878990, 8195662035569123779,
    7825113967289865429, 7536015116769926864,
];

/// Magic multipliers for 64-bit division by the odd primes, from index 128 on.
const MAGIC_U64_1: [u64; 128] = [
    7323332231172550506, 7114102924231694467, 6976494057486384932, 6705673944237959509, 6506315280951717677, 6375155967655206407,
    6116930739656613345, 5989822461191587912, 5555118609236548581, 5253966003427940047, 4902410353334429664, 4844829208014962385,
    4561131604096271594, 4505219391027484660, 4394206266651489321, 4339101440739882467, 4067518061545014362, 3697999105046111755,
    3594639743651686255, 3543321038605443559, 3441397214214644045, 3091985608706162016, 2994193419455693396, 2945629574624062037,
    2849158893008126913, 2379568970919534222, 2288125225388780827, 2107625819085422111, 1886373182995056409, 1712771328081890065,
    1627077319997760664, 1499893657524430280, 1374311468240690625, 1087346858533034584, 1006876864991355547, 887407340291042913,
    769396243155739183, 614270993372770135, 499560772307079132, 274233063533838726, 200310152824091874, 90513955219379547,
    54201990422261171, 18196254823436095048, 18125310004661369691, 17914114312197245025, 17567490304705283189, 17498957032814864854,
    17160166258955068280, 17093173012797656013, 16893697332237278796, 16308483031126843701, 16181057817176939411, 16117694959188126069,
    15991662364719948576, 15804327424891682935, 15619019553844246139, 15375039151856394409, 15194335056261206808, 15015551641930095603,
    14375959543108138836, 14319025104917648480, 14037290202263932228, 13815366825485291860, 13542190611266876589, 13380494227012572824,
    13220424294234422994, 13009485620676095104, 12698294560220507502, 12595927958301263265, 12443633573843319774, 12292826197207585658,
    12242883759724373413, 12094025419384354374, 11800599291348223973, 11560350336899790489, 11137384244972642362, 11091122902801129940,
    10999032904433208875, 10861969551548137841, 10816564882880039174, 10681191055787103519, 10591635528870895509, 10547063956188500349,
    10458330037198758797, 10195357414506643767, 10151993142760669209, 10022684609754775219, 9311471843231786893, 9189636221065255780,
    9068865440461724211, 8909470164492592997, 8557495999883844889, 8365840640951315460, 8102048521481707492, 8027630041887618468,
    7990577034028140274, 7916781301696702194, 7806856942938927682, 7661709183344464770, 7589735501036941637, 7553897263494276127,
    7446972076363897123, 7235738497981244924, 7062325381359429957, 7027923399626363226, 6959397058070651283, 6925271952453753764,
    6857296022042063729, 6756012339203831780, 6555858085759119271, 6358857937424500722, 6229240160749731016, 6037333608051408663,
    5942495347179513400, 5879676958458614328, 5786053785788307082, 5662338161744922992, 5600952847332562776, 5479115244186054280,
    5418658240224220785, 5209443692700693663, 5150340162990736773, 5062236550408159467, 5033014697550337576, 4974788389376103505,
    4887988392601233875, 4859197852852546910,
];

/// Magic multipliers for 64-bit division by the odd primes, from index 256 on.
const MAGIC_U64_2: [u64; 128] = [
    4773250925034862465, 4631406117467700498, 4352852705383485023, 4270593186036186033, 4216082478754252649, 4188925107211456000,
    3868041433057820924, 3815443235045405196, 3789237011020973228, 3659125945574919835, 3504988560199316316, 3479507732998029179,
    3352985795279001016, 3252814721785659016, 3178288475206969111, 3104272391183295908, 3030761249176839351, 2813206327504382943,
    2741664150046568244, 2694236263703521529, 2670601853041237490, 2529897715828017352, 2414068661219858495, 2276751188472105932,
    2186206151826855654, 2007469170988424405, 1853595455015414376, 1788356013573341641, 1745095510981609106, 1723534550399984802,
    1680550472351802519, 1659127061445936255, 1552690475235478405, 1426444702175330925, 1363917626844806911, 1301782775719179022,
    1117695006019688006, 1097452441012208193, 937007523497817143, 917136942670336498, 701219364180545551, 643165912625547783,
    566306687718310342, 509067197217273126, 471098621812312035, 452171315463615823, 414430096513694370, 339398075945924123,
    283514658544866684, 191110816747854260, 172739348152036216, 81422607485721415, 18356891447924312690, 18178492826879068559,
    18072281410057641917, 17861695967575562954, 17826834287267079887, 17757311377135835744, 17722649763492135038, 17550332498903275168,
    17345706767557299838, 17311828442104136704, 17043093279937382823, 17009785126625654118, 16910234740475906232, 16844177797338707805,
    16811241799325596970, 16647479672651025913, 16517561213617761397, 16228732624736672992, 15850969828203441312, 15788808135585565475,
    15695986936644864751, 15573005465198293238, 15329681373726444549, 15299510381812700916, 15239329812119393288, 15119610313635771983,
    14882706180332937762, 14853328084031445925, 14794726989165205718, 14678141382631668647, 14591237441775504536, 14504788296946498720,
    14447406438225286617, 14276453728765252810, 14248134215305733291, 13939824175717933776, 13856746189614229239, 13829148162904853946,
    13746636295235622402, 13691862360111938567, 13610050039957959381, 13420764878595097654, 13340325226212334552, 13286924017812633777,
    13260290641319539202, 13180658071922228803, 13127791540964214962, 13048822298076327259, 12892062946578429894, 12814266983764309956,
    12736856308425951240, 12557713753912247079, 12506907596062805377, 12431009798752370501, 12280325355291799917, 12180683460102496791,
    12106375103772989193, 12057036195129496999, 11740177111234245196, 11524641775522627448, 11406224605039687191, 11312162474504045635,
    11265353341121090704, 11195415096911995430, 11172175458205118482, 11102674669315213116, 10850605180231636217, 10714916955203734150,
    10692424351247765553, 10513724966502914241, 10425194682849226917, 10381132204777408865, 10249748036398432972, 10097972105328726971,
    9990539978196479028, 9969150520466576034,
];

/// Magic multipliers for 64-bit division by the odd primes, from index 384 on.
const MAGIC_U64_3: [u64; 128] = [
    9926467990096052372, 9841486448909064416, 9778083616209881862, 9714964359355794422, 9673041458822760785, 9652126780107601013,
    9610390618423505725, 9548018329370968362, 9465285378050449648, 9424102007409711911, 9403555862123225170, 9342098782456069355,
    9240270849674223914, 9219994749400782848, 9119058088243868092, 9038837492647059305, 8998902030872476506, 8860037178879650921,
    8761705233425602659, 8644637685313153088, 8625224298169460717, 8567150715677049535, 8528573215085280023, 8509325753587745359,
    8356329259356898693, 8223874961205493714, 8186270986535186988, 8130063427491406323, 8055488029382108651, 7999830559092101664,
    7962855271244773243, 7797737942933144952, 7725013365124644235, 7634672469581550704, 7580766682719770954, 7527083264177806040,
    7455848907406088912, 7367353543616831514, 7261954029697839817, 7140070598120561293, 7105458741953053531, 7053716178033385752,
    7002182745392611880, 6985051189136063807, 6747608619159512546, 6730817980910349557, 6647199375614368484, 6580703334675451173,
    6547587294439414120, 6432368117898720831, 6399643208735145333, 6334450982346310444, 6237301573436584751, 6189011950390325600,
    6092997311777399804, 6061158529571124161, 6013554963491589019, 5856203409698078947, 5778284373201100330, 5762760484417434421,
    5639281978542384444, 5441293778302564546, 5411122590614516404, 5396065558955113395, 5306120976876529308, 5261402686853461695,
    5231683919369208466, 5142972980899978019, 5098866311430468147, 5040313348085388832, 5011145937440502225, 4953027907062923894,
    4794678173572614924, 4780388949934568710, 4751863149475687383, 4737626508037709329, 4652572259495683303, 4456518650120191767,
    4442642089851285531, 4401113115862363540, 4359734563753268614, 4318505617737969752, 4291102368034150888, 4250120968619773533,
    4236493310233505550, 4155069783877742258, 4128058354110682451, 4047410057256308289, 4034024663545528247, 3967335939910835041,
    3954045646395495351, 3848288008295264973, 3835138475955539337, 3730497994360399491, 3691510753689898551, 3562537524284716785,
    3460435899011330791, 3409739503355627273, 3384479192951622444, 3371870920779135482, 3346698016257083348, 3334133333587745421,
    3196872003607642145, 3147386742499171854, 3073581681321585787, 3036868017821390500, 2975956160459522220, 2963815213883059158,
    2939574558023911000, 2903316317902294505, 2891257543323581234, 2855162812649152478, 2795275528740356571, 2783338456752466766,
    2711996818453518510, 2652910694766941939, 2641133047673178895, 2582441488749208034, 2500820031062925074, 2466033043897512713,
    2442905836689763679, 2408310777495064288, 2362361882201856652, 2328032864952621444, 2293816927090427363, 2203123028207453965,
    2135621419593178817, 2124414032991870497,
];

/// Magic multipliers for 64-bit division by the odd primes, from index 512 on.
const MAGIC_U64_4: [u64; 128] = [
    2102035835432227938, 2024094107248000110, 1990871215961620529, 1968782466661786785, 1924747898766674704, 1869971098625571649,
    1826361299489891212, 1793776613650299287, 1761296505566811963, 1643089408320313691, 1611090735399639629, 1600447150995761045,
    1547398219467035688, 1473599645223831833, 1452614294980025266, 1421219041177201847, 1327624867906340407, 1317279919467095891,
    1265717112284271348, 1193979535834072876, 1173578888096297104, 1163394448458712963, 1112630434681420018, 1042000761450191335,
    1021914448814108116, 981865781243990020, 892355932923241683, 872576746007738954, 842983709265767103, 833139500139471967,
    813481194175822695, 784068786029395551, 774284602432479272, 715787938949419579, 696368093991062375, 599856310942407905,
    494811134591858116, 438000671582706175, 428565375681985586, 409723040319478437, 381529967136280286, 353421073320635849,
    344070083443973234, 316072843577342703, 214126196953407984, 204913227182653622, 177328819047244889, 104167717578030859,
    76880276845565673, 22545519522988942, 13520701739831091, 18419742252669723046, 18312129059792916601, 18169618284378320165,
    18151882095297144155, 18116461213449569323, 18063458258213291303, 17940380282618078252, 17905367413379369924, 17887886234496422618,
    17731308943247270706, 17524626421845946323, 17439204026938429111, 17388145054065797409, 17371157668842865270, 17286461755523989845,
    17269570615921421402, 17185353887108332572, 17168558177487395554, 17084816578025375927, 17034760376121076898, 17018106302218316687,
    16935069893002845209, 16918509249910538915, 16835938030383057966, 16786580116504635104, 16720983981172609622, 16477158734663142361,
    16396633249746442583, 16380572693247960908, 16300491486609750946, 16236691191800810294, 16188994512545008742, 16109790902697639521,
    15968133505846050033, 15921172108193711254, 15827632758186263045, 15734601199266844412, 15719145017818516853, 15580665845639389352,
    15534755240846024467, 15504216935463363873, 15458512253826604283, 15412930461766282316, 15276917486618198181, 15261872355429115982,
    15186847613766221106, 15082372290130840405, 15037795578811752802, 15008143562294133759, 14993337238932326419, 14963763874959174194,
    14787416351148299020, 14772804717635501547, 14685404019214948897, 14641875906984262012, 14526358141395979006, 14468901200049683157,
    14425939731343449655, 14383090262990132686, 14255209497341875963, 14142371184394534397, 14128321123925422913, 14100257315872323646,
    14058252151678412858, 14044274514084180235, 14002413635508538751, 13960660483834657443, 13891310163788553850, 13849842259230958502,
    13767224686006638288, 13685028720640575290, 13562518254574423567, 13548963623057047334, 13508368519191409864, 13481362296843722595,
    13360397044334785753, 13306928431402582622,
];

/// Magic multipliers for 64-bit division by the odd primes, from index 640 on.
const MAGIC_U64_5: [u64; 128] = [
    13147595765685942183, 13121195648836645760, 13108012128384548789, 13081678094416600448, 13042259354468953664, 13029141669224971783,
    12950664497208513383, 12924592328995170585, 12833679741614117778, 12640630427798090194, 12576809088234329895, 12538641911902227519,
    12462588602058222334, 12374330258705020450, 12336659359133929101, 12274078746340996634, 12199317060305586660, 12186892141945961630,
    12162072505554909968, 12124918368497336274, 12075519600665048837, 12038575162084002316, 11977199443872217428, 11964953944368260185,
    11940492494122470673, 11855186435981374159, 11818773140756430127, 11782447254921904043, 11758278403170049991, 11722097501820224156,
    11710056455491934483, 11649995112075878944, 11638011540829299039, 11542485426554121105, 11471237999509345007, 11423927492178696425,
    11318023988498178705, 11294591775892622531, 11259512551379626061, 11189601768971100834, 11177981950957895324, 11143177103464649841,
    11108453941512166913, 11073812177868617331, 10913218516503902210, 10879032648943009386, 10799574380292508930, 10776951043642729730,
    10731809209130503769, 10675577655299630662, 10630748220273255165, 10563762252231828081, 10463859992069795398, 10441752858393038107,
    10430711965241078394, 10408655477909437660, 10277020885771278424, 10211652939722772837, 10179080410440599329, 10168239348337152955,
    10081805567942071348, 10049527367329227724, 10017322125542406727, 9942458904278170879, 9889225821626778187, 9815034017150490808,
    9793907664625086179, 9636461176583822634, 9605182314229681137, 9573973050679220281, 9542833153893457616, 9501420796242112309,
    9470441858643791602, 9449827359155253044, 9439531521756151805, 9377915740657719023, 9347209844228400718, 9326776869467924370,
    9316571644061649347, 9286000916532446336, 9174481927355819768, 9144223144079136871, 9134151610143094276, 9114030584657883518,
    9023848082594510707, 9013864222097943721, 8993918256384627945, 8934253833851355585, 8924334979329507765, 8894621486599593823,
    8874848305937645426, 8747016489873073333, 8717686530609816862, 8688419771115129088, 8668943608298100787, 8630075036096692219,
    8581645740604282553, 8427829543901802971, 8351576098631048994, 8342074832836920081, 8313611416254791724, 8294669384409125935,
    8285208420864771193, 8266306562993408759, 8256865654480702288, 8209761033333779984, 8144093063687711597, 8116048587888030884,
    8097385111575648953, 8060136728224959319, 8013722998927227729, 7985952699393237756, 7893804549582874189, 7875451963884708416,
    7866285257968777975, 7838823407909625083, 7702369518923887879, 7684282634197874779, 7648183823342537288, 7603200324123347340,
    7576284590287115655, 7549424419637884620, 7513696993431600564, 7486965803041546177, 7433668231792871203, 7415951023300314350,
    7389420647068127789, 7380589279875928958,
];

/// Magic multipliers for 64-bit division by the odd primes, from index 768 on.
const MAGIC_U64_6: [u64; 128] = [
    7354131366247533383, 7336522852041795738, 7310155099944555567, 7301377829822335731, 7257581058426635974, 7248839577341059988,
    7179121188598172115, 7153074230852306226, 7066632163303557761, 7049413755180046299, 6997897692888974540, 6938058118769643217,
    6819219385883935567, 6793898560636305548, 6709861128858893005, 6693120749419486288, 6618063929579326613, 6584849010906755630,
    6559995534403744237, 6543453950406315234, 6518682566275356172, 6461073208609328694, 6436464793708305595, 6411904956036894648,
    6371079452621315003, 6362930438165123617, 6322265506986833705, 6273643207793580535, 6241334255293658128, 6201066634466707859,
    6193028868052823542, 6152918542573802908, 6120924183781693196, 6073088386428148667, 6033367290591217352, 5938559694537769159,
    5930692198564790510, 5914972426665854936, 5883593625828147119, 5860112521405237968, 5844483615058917576, 5813286019696877480,
    5743383579856743700, 5704722675823554799, 5681585393291669339, 5658492399703855122, 5650804555189929622, 5627770415987540441,
    5589477884589899130, 5543687336328334849, 5536072535055508984, 5498070924203401457, 5475327709071617743, 5452627656771018816,
    5429970644544303154, 5399828034832131648, 5377270974663244670, 5339770557461335656, 5317326920444976901, 5309855116956797518,
    5287467870978472075, 5265122778923218954, 5242819721842830707, 5205741049444094783, 5176161577662755222, 5087865403292262251,
    5065894397089988891, 4985683814618661571, 4978419071822714210, 4913238528211710842, 4898803192137605319, 4869985975947699864,
    4834064345922037791, 4726960488754586835, 4698565690699798490, 4634931113678358395, 4620837585858246711, 4613797274043942485,
    4578660078633682704, 4557629111224022268, 4550627323616372420, 4529647510877440454, 4515682221964152508, 4453047932932158771,
    4425320017682706117, 4383853818997601555, 4321935668919444443, 4267178585516158115, 4246712519146529904, 4239898690414250642,
    4199101490778481779, 4178757865477249828, 4144932926115332050, 4138180070936786277, 4104476259349491339, 4097747564635763443,
    4077585550948168885, 4044062214700724741, 3997296837003153989, 3983971000036722221, 3904347103901548346, 3897737288382515047,
    3844999170401474618, 3838424404660695669, 3805608665478881139, 3799057111603071208, 3766357124560130413, 3701244707153506693,
    3688268003605322683, 3681785352535674163, 3668831435119461532, 3642969045984739693, 3591425308210916058, 3572158367180532435,
    3552925085095026465, 3546521455591663177, 3508177828343135707, 3457260485187193831, 3431890275766146493, 3419227196993479326,
    3400260039609610859, 3305915700556843496, 3299655041534173645, 3268405725374892534, 3262166636221298383, 3243470861245041012,
    3231024890833361430, 3212382693071105807,
];

/// Magic multipliers for 64-bit division by the odd primes, from index 896 on.
const MAGIC_U64_7: [u64; 128] = [
    3193772531163518245, 3169008672940233371, 3150472940986553406, 3138133436907309810, 3101199381563319743, 3082779711990497799,
    3058269082947435269, 3021607602924721270, 3009414871601913220, 2966849160218271374, 2930498457317276343, 2900300346664603892,
    2828171800122441463, 2810215759154233282, 2774394453439535147, 2756529035849680437, 2750580579373439945, 2685367162736909976,
    2661752567138143152, 2608812210507899525, 2579515485470724833, 2561976550762663988, 2521165937644499562, 2509534868438367791,
    2503724171379682661, 2486311398215735382, 2457354342645220391, 2434246316207354124, 2416948795519862555, 2405433027412105186,
    2388183191122744929, 2302360340931207253, 2262551178014259106, 2234209457401526370, 2228550419631349580, 2194661123917636861,
    2166504794361468278, 2160882743667871927, 2116016499406334469, 2110421951569818108, 2060207677115342785, 1993635670890562930,
    1943989626442741845, 1927494493342982676, 1883637663385651780, 1834523870436019024, 1818205296255400354, 1812771605581056621,
    1763999199237973707, 1753192759845941880, 1737004751164048870, 1731614512460650927, 1704706446603643056, 1683231609230190870,
    1656452341326852114, 1640418953251587137, 1624411119786084835, 1603106987963348323, 1592471872693928936, 1576540337556997588,
    1571235453622366101, 1544753141772476012, 1539465085373723988, 1507795402301097643, 1497261133077916622, 1481480567175143998,
    1465724954071268893, 1460478617876358915, 1429058563647892398, 1418607241109515933, 1382114009459146303, 1335390688933287347,
    1325037615657012147, 1309528308540238793, 1258005887410365823, 1247733634074710973, 1227221224015828783, 1211864935244350666,
    1201640720443178438, 1181224162662528764, 1171031786582366707, 1135441678762736429, 1120228275355403303, 1110099132169657242,
    1074729566883220228, 1044514465156519175, 1034463539005241067, 1029441962097723399, 954427765015399834, 944469509227526126,
    884933993557769203, 870107192023370133, 855303116458879453, 825762934558353861, 796313032088060359, 762068364555180409,
    747429361045769969, 737682415033452934, 732812653264511951, 723080542785265946, 679407989551889574, 664894658025448617,
    635933972991881247, 616675561944371286, 602257243803198522, 592657142345462475, 563914808140825393, 559132853950949811,
    530491572633365230, 459264615371975576, 421495088711305775, 416784505971967151, 402666859535882691, 351082453449130663,
    318402759995731737, 304431934706957485, 281193397083439689, 253383070434570008, 239508857145975383, 234888693236751616,
    225655216025855136, 207215616677887816, 184217269137032879, 170445460826440357, 156693997425330428, 101890693913947444,
    70070955310010551, 56467319926868960,
];

/// Magic multipliers for 64-bit division by the odd primes, from index 1024 on.
const MAGIC_U64_8: [u64; 128] = [
    47409328790588739, 29319925780440662, 2252074725150721, 18370341430451405100, 18325546339194365367, 18316600398210810102,
    18271935904866234276, 18263016026333846135, 18245189264114570477, 18218481560605296580, 18129736006607196984, 18103196052503689850,
    18085524136571760324, 18023806777461836544, 18006211529192063832, 17997420270153621383, 17979850466926496797, 17918489340278812441,
    17892254952821324142, 17839899569423752944, 17735640088107435536, 17692375249937141399, 17666465975717774669, 17631978011005417189,
    17588960576780169820, 17580369396746676025, 17451991512898987840, 17434943555835419734, 17409401958282059925, 17400896171060617247,
    17349946072406437213, 17332994875462615269, 17273791903557591001, 17248479134470121666, 17105715037413527278, 17055599976996109571,
    17022268354838423232, 16997310682201940548, 16955792520370018922, 16947500557237549178, 16930928278351468363, 16848299124195072194,
    16807129121631320154, 16774262208035850281, 16708711888097740891, 16700535249892878164, 16659709045544402813, 16602711441036742444,
    16586460389447663370, 16578340513572554501, 16529700192423684547, 16505430657834023460, 16440876254543627846, 16416729787595938484,
    16384586444171892856, 16368536988801368057, 16336482408469904441, 16320477242712545897, 16296497092362099572, 16264574968860483262,
    16240671845452309245, 16216801620023364278, 16169159591810697345, 16145387653846508093, 16129557825805068414, 16105840229898233188,
    16082155149831782062, 16050625507805948176, 15979893915088408708, 15964215154761049964, 15886035081539487766, 15870441676677333099,
    15823746333780786708, 15815976128496240662, 15777177894771627603, 15753941102669003740, 15746202515684870115, 15707562051689622718,
    15661308618272989145, 15653611889695310584, 15638228848773508459, 15561521359356420442, 15538576392236393923, 15424314415997642565,
    15401554157184982339, 15386397637211448460, 15356125281357811507, 15318360931726410140, 15273154944884367126, 15250597313697884406,
    15243084808651087519, 15138260360522840170, 15130797855371360914, 15108430224464900886, 15093535018916937528, 15086092374050050479,
    15026669914955560100, 14982241094264930596, 14974847754628090061, 14952687344530838889, 14915818560538962975, 14886382087496723192,
    14798383514416869425, 14754558233623997069, 14732688894086835878, 14667253395739039781, 14645498880813309840, 14631011743698491908,
    14580406500397900431, 14558765908124814845, 14544354594957329039, 14501196066229104623, 14472486391779751693, 14450986948784983453,
    14408072200196013519, 14393792154005029899, 14372395344648282425, 14329685261900175494, 14308371879867699244, 14265828163941416420,
    14258748286820401168, 14202219402973746826, 14131832503164146097, 14117791526296621607, 14110775575504850375, 14075741119840141022,
    14012868739485303253, 13985003421049252299,
];

/// Magic multipliers for 64-bit division by the odd primes, from index 1152 on.
const MAGIC_U64_9: [u64; 128] = [
    13971088695104917298, 13922481041815487870, 13908619902701677769, 13901693783901204424, 13880933207674264159, 13805038543263801674,
    13784401804893124472, 13736351965440410441, 13715803005534600101, 13695280269974091230, 13661133850826440489, 13640680801930887250,
    13633868908315423830, 13599852777489397984, 13593058205910642774, 13579477702666128545, 13572691767339001587, 13498235833663590090,
    13491484279207841777, 13477989728303471906, 13457769269862420693, 13437574409638617356, 13397261289651242155, 13377142933098629250,
    13330298813858242904, 13296923072982738446, 13256964612292472267, 13237023082560213944, 13210473366707049796, 13197215187483757324,
    13078389430374864122, 13032420065823548445, 12993124323633347966, 12973513219528549401, 12960452736397202378, 12940882357244575882,
    12934364316245519891, 12895312848789389967, 12875823539893650134, 12836917545549044149, 12785192983607519137, 12778739437361560449,
    12746511670294710298, 12720777314725767935, 12650226283699368405, 12643828388347571487, 12605496232841079606, 12586365578580960108,
    12573624899261534670, 12554533483338073133, 12497399972943186551, 12491064801677621450, 12453108181035085301, 12434164775136600799,
    12421548736387199858, 12383762394071463755, 12358622851543459665, 12339795083228137462, 12302208505765195935, 12289700033242273227,
    12270956394189350069, 12233537613800071131, 12214862389073982287, 12208642365448303509, 12171375154702695743, 12134198444114721751,
    12121826261443406175, 12078602346213415123, 12060115207975852006, 12010925472159368437, 11992520192949456711, 11986390042054952833,
    11955776286783084304, 11931329592353097261, 11876468016554047630, 11858224832703492973, 11755260013794924619, 11749225044449834305,
    11664988007954022528, 11658989057444676263, 11593158013921627559, 11575254029365574408, 11569290776191858026, 11539510009399615333,
    11503851001472025401, 11497916077252233154, 11480125408779535787, 11468276702659575740, 11444607415130058084, 11379709583021652734,
    11362059053192242810, 11356180184613818237, 11326820590230680251, 11303374530843779783, 11291665343161184749, 11274118833523931881,
    11250755671171778214, 11239087858679928168, 11204139366264675175, 11151870646068853406, 11117127089711879831, 11059402065474017034,
    11047884100747098494, 11030624004282967030, 11013384097033921791, 10990428898303431113, 10978964708654122192, 10973235961689776105,
    10927486162820460405, 10893267080902359236, 10887571650221079626, 10859127632259351097, 10836412103371864301, 10808067164665948692,
    10802404760477740911, 10791086525464028115, 10774125587284095651, 10734626487616826069, 10700855010450665732, 10639143223341482325,
    10616767312352309494, 10538722014681864293, 10533163386608531966, 10522052523976377041, 10466625763050928024, 10455565853005308639,
    10450039070344114478, 10438991843680995424,
];

/// Magic multipliers for 64-bit division by the odd primes, from index 1280 on.
const MAGIC_U64_10: [u64; 128] = [
    10400392979230917381, 10372885458440471621, 10339945601845957831, 10334462945017930879, 10301610811067133791, 10257924451663921048,
    10252472990544298321, 10176369374880020662, 10154699562484003194, 10095276410156469130, 10073729164344359272, 10062967736842027828,
    10046840813973798406, 10030732125636278374, 9993215924752600796, 9982515159067919335, 9961137767032744999, 9929131891331974408,
    9913155982934653478, 9897198053614587339, 9886569407462033055, 9833545521467513387, 9822964550708865153, 9775447998720861465,
    9770178240141376746, 9738600969996248410, 9722838823453025855, 9712340516214728052, 9696607719162903332, 9659966137734444821,
    9612995495843627632, 9586968467210334636, 9566181582389928751, 9540241286384650966, 9457554227800677696, 9442104768558354048,
    9416393651344130848, 9400989723734223716, 9385602818606250362, 9380477628127967368, 9365113375785000117, 9324224859825070610,
    9308922645333270836, 9303825653924025988, 9273282974227465139, 9258036832299917050, 9187109350781377677, 9182056996192385826,
    9156822909910623165, 9136668804236719597, 9096448754473925435, 9081396458548148874, 9061352304160412312, 9046338333609405328,
    9021351436938207512, 8961567788415894442, 8911946512300885035, 8887203190797755401, 8882259896238661937, 8857570218788171185,
    8852637635590176835, 8823079521315016974, 8813241035306168929, 8798496609933943713, 8749463512329978095, 8739678063886678813,
    8734787979861569320, 8705484378689809958, 8661647253194860769, 8637354403184192777, 8632501056982796174, 8608260393541123676,
    8603417467833211624, 8593736815943959495, 8545437305557867664, 8506921751997867780, 8444567867179966462, 8435000558831344380,
    8415886350577826722, 8401568523221894922, 8392031781335053098, 8363462162754326117, 8349200150393409079, 8330207720713881863,
    8301769503036823610, 8273391626375082252, 8259225255941176818, 8249789351222635795, 8230937531344494962, 8179232043254354091,
    8174541481091584091, 8137076394551271120, 8104380840957697236, 8081076070559499001, 8067112835112037443, 8039230416138603119,
    8011406578803561724, 7979019229924031813, 7965163197430647080, 7955933912108330247, 7909884068233179149, 7900693368854940903,
    7873159688692024077, 7859414417339042142, 7854835850027050393, 7841109705855316931, 7827397880881189380, 7790902849083858722,
    7772693325757551159, 7722747215896240546, 7718216094557896543, 7654944751202555965, 7636923390142808243, 7623423691636544622,
    7614431653086800344, 7569564345302008484, 7560609415977849957, 7533781577769627760, 7480291604737501115, 7435884589787690285,
    7427021434693606819, 7409313322445576597, 7387212239108406644, 7382796555609078730, 7347525355637319911, 7343123227566776883,
    7316741980647050011, 7290414650948312106,
];

/// Magic multipliers for 64-bit division by the odd primes, from index 1408 on.
const MAGIC_U64_11: [u64; 128] = [
    7216111908599805069, 7211754517313225673, 7203044172378651192, 7189989737780591202, 7163920692298184481, 7150906040939156242,
    7137904610253649407, 7120589900036941378, 7107619239358622366, 7098979441095392487, 7094661732396870566, 7081717359152792643,
    7030070804791442541, 7021483355603441869, 6978632800493972712, 6957261549864231160, 6944456035813870520, 6931663425128074858,
    6901864070520700307, 6893362818522970702, 6880621626756156394, 6867893241279751817, 6863653288626709475, 6838243369079479898,
    6825557532081676219, 6804442734182276747, 6800224007792185389, 6779151502924894063, 6766524876291056850, 6724527259983901676,
    6716144520383970462, 6661792513783785069, 6653451500051539131, 6649283070993370719, 6636786086773251412, 6591070101061162797,
    6586922364098556864, 6537256496982131750, 6528998005759690073, 6516620500805794356, 6512497391618493118, 6504255257889333357,
    6491902258797857715, 6442612337692679602, 6430320285798004041, 6413949757306101397, 6405772569959332002, 6401685993186550800,
    6332419237240460164, 6320235759418145973, 6304009746915892138, 6271621420987209133, 6247385749287204139, 6243351090383030173,
    6223197555843733314, 6219170796416727147, 6199056701276772585, 6187003982664830459, 6170952016838407469, 6162933876266614306,
    6146913254279486848, 6122921392810023515, 6079057671292257496, 6067122006561134870, 6039317248793672372, 6031384613717134517,
    5979947505022954137, 5972053284588686542, 5968108087503574944, 5944463649933196643, 5924794907312728336, 5909082737770607437,
    5901234247700042655, 5885552432502290722, 5862067548880112478, 5854249325314111139, 5826925101750836600, 5815233521510589163,
    5784110965467654644, 5772460582405304837, 5756944154340203624, 5749193393559465571, 5737576555534050343, 5725970866997262243,
    5710513931538413669, 5698934196136041871, 5679659287323201133, 5656569978739391177, 5652726056555761651, 5641201642689371926,
    5629688245549374034, 5599039592744207130, 5583744508914070367, 5572285959164746539, 5560838331855409357, 5537975782147705243,
    5518956893989861094, 5515156735269858016, 5503763486608801160, 5469648654284220140, 5462080774297512199, 5450737930216857310,
    5439405843595221456, 5428084499136430980, 5405473975667553086, 5371638375944266154, 5356631125444366135, 5345388092208522357,
    5326673286760620152, 5311722627309023471, 5278152299919249207, 5270705106519381420, 5244676707324962273, 5233539159359263998,
    5200189257301894568, 5181702091848832692, 5166933159172493363, 5148497936100526742, 5126413628783022573, 5122736929461102184,
    5111713709723084886, 5089698174063775515, 5067723747317235413, 5002045972349668935, 4994771082084855712, 4983867206518163221,
    4969344475423267295, 4962089858879503739,
];

/// Magic multipliers for 64-bit division by the odd primes, from index 1536 on.
const MAGIC_U64_12: [u64; 128] = [
    4951216358562438295, 4947594102902979825, 4940352955127196328, 4907823185672049009, 4886186900092447433, 4875383783660406998,
    4860995180062122147, 4850215373115183887, 4839445532859312987, 4832271169582237160, 4800041166168711109, 4796465562809505039,
    4789317654871773338, 4785745349278940480, 4742963200414387130, 4735848156378451274, 4725183772925217508, 4714529196553096379,
    4689706581090823006, 4636694015625000716, 4626120641433382477, 4619077104925668844, 4608519859745120265, 4587434335227060966,
    4576906029410528652, 4541881080596167840, 4534888874633334376, 4520917215420115812, 4513937754419088791, 4499991550286902236,
    4489543010122678306, 4479103980880245371, 4472149905486421212, 4420128507334353482, 4416668809538598296, 4399386011985307684,
    4378681113486075125, 4364898684510487155, 4347694036529327159, 4333948992066983673, 4292813138212598236, 4282552376892636373,
    4262058608960618471, 4255235563010743861, 4231387156399046995, 4224582526219733035, 4214383234055110128, 4210985508992097209,
    4163524116883497960, 4139867906236438496, 4112892778097367372, 4109525416823868317, 4089342340700805082, 4079264341260806414,
    4072550681052186979, 4039042318944067436, 4022325505032348145, 4012307342182348041, 4002298108839456308, 3992297793070260819,
    3978977889906779443, 3962350232189261588, 3942429561645459398, 3919233496308748812, 3902694283434373081, 3879580437161194759,
    3853223085122979461, 3830211399398526344, 3813803536488378242, 3790873092331011528, 3781060214269950751, 3754934829078760562,
    3745153635641890757, 3732125442960096412, 3722364332632214223, 3696376660678117348, 3663977625292371984, 3647813635454663143,
    3644583673067532931, 3634899449608728042, 3628448016251539150, 3625223713017775754, 3618777931376036008, 3599463155385006243,
    3596247313035200312, 3580182163711721883, 3576971943462881065, 3567346894580731266, 3532126910484855604, 3522541010513556161,
    3519347568390695036, 3512963468516510557, 3484280881203538413, 3471557101405198814, 3455673123453814837, 3442982507275259978,
    3408159021500318489, 3404998743415550957, 3389211052629390201, 3360850623141396770, 3338843391413874729, 3332563766865305607,
    3329425311956367664, 3323151114913749809, 3294961911734466346, 3291834283742602141, 3285581726510286860, 3276209631721145838,
    3263726072376023679, 3248141785428865847, 3245027612478440466, 3198422072796019800, 3192223127812413995, 3145843973990476510,
    3142759098206820531, 3127347931691068962, 3124268338228018414, 3096591509985458269, 3090450745905448290, 3062860573906795525,
    3053679551790718263, 3032287615840394634, 3017033705117044058, 3013985522516912467, 3007891753908627818, 2977474746993453536,
    2922940922660192687, 2913878931708307857,
];

/// Magic multipliers for 64-bit division by the odd primes, from index 1664 on.
const MAGIC_U64_13: [u64; 128] = [
    2907841872991309946, 2898792680556801494, 2877707693993637101, 2871691060920997420, 2841658751088454560, 2826674304812113316,
    2805731483822077220, 2772904518838176649, 2763969302924408219, 2760992569589676065, 2716441620825655560, 2698673606529537007,
    2683889702677031177, 2657330704843433070, 2654383825728924519, 2648492535745134898, 2627898901233429605, 2619085361270394971,
    2586832020914798978, 2560516293542640897, 2557596388008239313, 2540093986401363854, 2531353719283944163, 2525530917870303612,
    2513895006924146538, 2508081892015837948, 2496465329911631509, 2487761357034875459, 2473270801604167058, 2470375097420443102,
    2453017692672945700, 2427035531488134252, 2412628892240982837, 2392492974050035620, 2369528045834307719, 2349475213681716098,
    2343752927298723385, 2335175399828046794, 2326604947093066687, 2323749700165597424, 2315188666804104610, 2309485230847641824,
    2306634687785833516, 2266809137424523751, 2263970303297047006, 2224308173308935060, 2215828901176432775, 2213004022787631629,
    2207356582591773723, 2198891209004929816, 2179165631037414444, 2173536672941010824, 2156668217766165453, 2137023201619556447,
    2114617576991672527, 2095052630134483841, 2089469482290808083, 2081100448715042127, 2069952342260667221, 2061599205360631846,
    2056034225161440426, 2047692415315829389, 2039357390647344858, 2031029142880819932, 2019935340095371096, 2014392945020208975,
    2003317155308466767, 1997783755801190025, 1978440416636957385, 1956378514804408668, 1945365426570948599, 1937113409507369790,
    1931615774153525296, 1915140646606913633, 1904172019729091821, 1882270179580102900, 1879535763781691486, 1865874711400825001,
    1854959083653066352, 1849505667990622562, 1841331035618319344, 1805983588533783751, 1797843969940880006, 1784292468472474871,
    1773464322868844964, 1768054595520419201, 1759945429777597791, 1743746600594496329, 1724880761347332432, 1684572445550908897,
    1679210171722777989, 1660464688425854790, 1631077948721677620, 1620413147169360387, 1604437171142653896, 1599117497137254359,
    1591143276529611262, 1580520846021234527, 1567258634962542529, 1559309736024829379, 1540786837186374162, 1527577180910585433,
    1519659764809130665, 1517022020725833395, 1503843747510152238, 1488052767109477055, 1472286764203668821, 1453924583935624764,
    1446065437490164943, 1438212496042227691, 1414690828285407554, 1401647264285936247, 1393829346080200480, 1383415030263763369,
    1360022746112015570, 1354831953523449346, 1347050863984946628, 1344458526228716584, 1336685585494303440, 1323744243400234064,
    1321158006456403887, 1308236964505841134, 1297912286364747312, 1290175857307054776, 1282445488511043311, 1269574988437835277,
    1267002903242851599, 1243884299712644858,
];

/// Magic multipliers for 64-bit division by the odd primes, from index 1792 on.
const MAGIC_U64_14: [u64; 128] = [
    1231064045546734189, 1228501997747859600, 1213143710305103538, 1208029608000619008, 1200363441317250288, 1190151183496431990,
    1177400780758164356, 1162122136869653839, 1144327093961239444, 1129099886628377893, 1124029409658789618, 1113896331678921213,
    1101244730614702552, 1093661622524837321, 1086084395472720321, 1060869358398967953, 1055834161023447912, 1038231421336370226,
    1018152873779164407, 1000618058949691270, 988112520956855283, 978119664554944411, 965643035524008258, 950692220729655988,
    948202656936491744, 925825306692813212, 918377660362165798, 903499533669748831, 891118547293538389, 876282261157611205,
    873811759804307214, 868872651775032885, 866404044614769023, 851605642378647968, 844214942289509703, 839290953005864993,
    829450511637555577, 824534055708116795, 770618099855482636, 765731605119339979, 763289289517887123, 758406520664045238,
    755966066938348103, 743773095866757590, 729161954058819280, 721864723376596268, 714573044381952453, 697580681066991976,
    692731254240375158, 685461718760999355, 678197703399686736, 670939201871275361, 661269766061409608, 654024105754348636,
    610665277678133212, 589059598499133506, 584264987662987499, 577077598327792986, 574683008149425896, 560328116948727340,
    553158793182841273, 545994875807025628, 538836358708143822, 534067011114746172, 517393148079824909, 491250468784169399,
    477021182295538465, 474651713159370545, 453353162464377074, 441541339930676725, 434461330404729241, 403842522913494207,
    375667018253909409, 370979287454590946, 368636297557166537, 363952067676973167, 361610827258604068, 356930094377133737,
    340565860004459305, 335895594655204688, 328894548621149365, 321898719785902255, 312579053573503048, 293967459970444272,
    280032982096712321, 277712583477567750, 229116700167806951, 224501673103155722, 222195014786173487, 217583407526617944,
    189961537911419814, 183068840280295742, 176181239227616027, 173886503806146350, 153259305184983044, 148681687913366841,
    132677755985984972, 125827357720258111, 93925511202864413, 73474990182677913, 57600192723883374, 50805036006911673,
    39490858314259852, 25932101564410470, 23674242226236056, 16903974653652837, 3378318309085444, 18386045506895809871,
    18372584050022834774, 18363615210579747901, 18350170141138843548, 18336734889797695226, 18305424091142067972, 18296487936947222280,
    18292021489246419171, 18238508691193925192, 18229605043899488331, 18216257673564942674, 18202920014528766905, 18145235453338973559,
    18123097405346325168, 18083316348561227822, 18070075222328301786, 18052435312034943726, 18039216559314809304, 18026007377887297920,
    17960104676956869354, 17951335640104778929,
];

/// Magic multipliers for 64-bit division by the odd primes, from index 1920 on.
const MAGIC_U64_15: [u64; 128] = [
    17925053856810611292, 17898810000448020831, 17894439705964264735, 17859515149505932038, 17855154299199858471, 17842078031550374383,
    17833365752070088703, 17807253995463038042, 17768156759512818965, 17763817826926318950, 17750807265131971072, 17742138750173259098,
    17685894446663129797, 17659994460865120588, 17647058386869333400, 17621214026852211458, 17612607462848020857, 17561054211112905485,
    17509648158002695565, 17484000134060441094, 17471189838425131809, 17466921769515128282, 17441334641917984296, 17381772896672440404,
    17364791550872152713, 17356306912922835244, 17343587491647461076, 17318175742118777321, 17313943958433534662, 17275902921581186955,
    17263240554831512209, 17254803962869184865, 17242156546666818896, 17229518088086741093, 17187454464716115268, 17153874914883097383,
    17149681920478928883, 17137108861318092309, 17124544680913798432, 17086905318290600483, 17066028960031978691, 17053514915385097316,
    17049345526813942856, 17041009687067445235, 17024349747504848206, 17011865054425286617, 16999389146680678101, 16949573183848250537,
    16916440259486176891, 16904031398968066219, 16887499791802495345, 16866857013356791047, 16854482919651108745, 16825643730883702008,
    16780420085467241167, 16764003861708086140, 16731217272232052723, 16718938037368148504, 16714846863834197285, 16690319799296004820,
    16682151713314019452, 16678069094244111430, 16633222835193854301, 16616943483997658046, 16580370129646453910, 16511494883396144258,
    16507451832571289612, 16495328289277591419, 16459008066228924296, 16450947157011225900, 16438862771521278150, 16426786752305251786,
    16410698392544677515, 16390608805508625282, 16374553801013334919, 16338484090375997521, 16326477453490275075, 16318477632583344649,
    16314479102281856019, 16306484800395811884, 16290507222613337147, 16258596100104227299, 16254611331727878051, 16230721924071102814,
    16206865386091777706, 16194949422038891697, 16159250648183995494, 16151327576872246069, 16139449770045932012, 16127580115921208972,
    16115718606107166742, 16111766577900681496, 16099915914134912427, 16076238952580618432, 16056532928819964188, 16017188294573394240,
    15993624555275382995, 15958339300831662304, 15950507949696502408, 15938767605414095199, 15934855938082416268, 15903594609436131589,
    15899690940059104976, 15880185894336026632, 15852916018630832391, 15845132581836745959, 15786869213219971370, 15782992027276607700,
    15763619263622192533, 15740400873256942777, 15736534205276739588, 15690202320784975258, 15678638967407965877, 15647841622455747462,
    15632463785980056963, 15613260986712750033, 15609423023440405416, 15586413395313284224, 15544309730896790810, 15532844987357095602,
    15529025124610643278, 15498497112751648326, 15460414158596197381, 15441404707325072332, 15437605374539486299, 15414827256037498261,
    15392079741288745835, 15358015716420451592,
];

/// Magic multipliers for 64-bit division by the odd primes, from index 2048 on.
const MAGIC_U64_16: [u64; 128] = [
    15339120875556257303, 15316474929100848170, 15305163336381161844, 15301394489593144345, 15282562873855572393, 15278799072377296979,
    15267512706217638264, 15248718873350740895, 15214942722933238792, 15211193996746185750, 15188719161909756567, 15177492996286253433,
    15170013048103172224, 15158799363623777308, 15155063131099753368, 15110293055436875262, 15058211849316588141, 15054497948532569282,
    15047072616450285884, 15043361184604736564, 15024816356398128065, 15021109855049353614, 14991487369965537578, 14969304895681491966,
    14954532922881849575, 14913977257893439022, 14910295262271607667, 14899254150338254825, 14891897468804076279, 14888220345157408477,
    14869846887394708284, 14858832531465090919, 14822170550502820411, 14800212078719610001, 14781935482516856353, 14767328666952824743,
    14745442506231944588, 14734510238598434735, 14723585169955848558, 14712667293195631738, 14705392700672864188, 14672696494331355039,
    14669067563134506203, 14661812085972465548, 14640064717538715249, 14607497180039810628, 14603882521911564211, 14582211164108851059,
    14571386139177026598, 14564173397062912333, 14560568207583223318, 14531755015565072606, 14510178111957237946, 14488629424209839620,
    14463524876435523103, 14456359176375614535, 14442037133500557060, 14409858079212913316, 14402715727785725128, 14381307292570499835,
    14356366025998191769, 14345688509554951577, 14335017941980810517, 14327908087398434469, 14313697626323757547, 14303047864704848740,
    14295951869484998374, 14260517968783527079, 14239294416925531246, 14221629152649124672, 14196929837146126267, 14189879748293287721,
    14186355845704937795, 14158191996591682936, 14154674933211034510, 14133588476676617056, 14080991480685034154, 14073991376191701268,
    14063496866822615725, 14021586474032543639, 13986743601737923158, 13945030740465175749, 13927682031336487019, 13913816438486743012,
    13893040304189682634, 13875747226612066873, 13855019930315168491, 13844666247745365172, 13823978781840850784, 13803317805782236644,
    13792997235550386907, 13779246746107827888, 13751780925348381978, 13727786708603462030, 13717514416542914055, 13710669865074008918,
    13700408498077641245, 13638977557338518205, 13604950597657678214, 13587964167708360693, 13537112733915962293, 13516817335381167403,
    13513437272841211741, 13506679291904160250, 13503301373053733302, 13456085387804914387, 13435892658571401354, 13412366757857126683,
    13402294853911218043, 13365418960199957745, 13352030707042438881, 13345340805442322752, 13315271049369350563, 13305260433687337986,
    13281926852085135664, 13251976876907396696, 13245329003798684496, 13235362420724883489, 13232041619247556888, 13222083390392433367,
    13165771475022972173, 13136040283222084695, 13132740269183431371, 13106364962533836564, 13096485577561887478, 13066884507037781024,
    13063598928287768269, 13024225354484054224,
];

/// Magic multipliers for 64-bit division by the odd primes, from index 2176 on.
const MAGIC_U64_17: [u64; 128] = [
    13017672656669636732, 13014397330928692665, 13004575443815532278, 12984950055941251117, 12975146543710762745, 12955557854043297226,
    12939252593163836793, 12926220570880399459, 12916453654060623622, 12890438248200064609, 12870954999256335507, 12857979620283642613,
    12841775508427960023, 12819117913944438316, 12754562373785136216, 12744902028117920770, 12741683242079860043, 12732030868639165945,
    12725599271518367901, 12706320390925535090, 12683858481129743196, 12677446740734328069, 12674241860868762103, 12667834080782371345,
    12664631180153981626, 12658227356708530377, 12645427615365834803, 12635834720310841625, 12619859709366697927, 12610282582371966514,
    12600711358378105036, 12597522261214930299, 12587958899403072883, 12578401427872062476, 12568849841181647900, 12549764300595078268,
    12540230335851866714, 12502153054308193884, 12486315125272823255, 12483149484460360238, 12467330994429076081, 12457847664483330810,
    12438898448763218675, 12429432552296199386, 12419972456307023340, 12397921426485099982, 12388480626964558845, 12379045604872456001,
    12297516635680336353, 12266274055822209339, 12256913660191732854, 12241325673323731999, 12238209975090620340, 12222640969028009263,
    12210197134755964810, 12194656534964579644, 12176028600048723239, 12157423300464646519, 12154324614961262304, 12145032322227215800,
    12138840594980150725, 12117189273477311273, 12092482410770546770, 12080143952517133267, 12061654947504529410, 12052418841034612437,
    12018600909270872121, 12015530270256309764, 12000186355309467543, 11987922348289068160, 11978730824730806131, 11945076018166087550,
    11942020181848971704, 11908446495632817056, 11899302906927758860, 11887120020600409109, 11871905161747868626, 11853667466082647861,
    11835451698411814416, 11832417866245093846, 11817257819211621336, 11808169075462808731, 11790007955069128158, 11786983221209399385,
    11780935568602524564, 11759787824112375692, 11744700399958825956, 11741684723539341525, 11732641307852912180, 11705543540762169208,
    11699528421792647145, 11681497455838102641, 11669488789990044187, 11642504261564209515, 11624541424888258810, 11615568046811390711,
    11606600022512523030, 11600624311602104564, 11591665199625169219, 11582711428665856371, 11561840040241428246, 11555882114175224647,
    11552904038222285565, 11535047990538977096, 11517213186356605493, 11511272965856022422, 11502367049875375668, 11475681044220975950,
    11449042553092693172, 11431309893336792478, 11428356495030357807, 11404750311559577100, 11387070141152231483, 11375294991232704409,
    11348834858972194693, 11334155064454442440, 11296055208252490768, 11290202342747111313, 11281427362247492960, 11269735440931547020,
    11260972533520732326, 11252214792664672693, 11246379166812852833, 11243462213795462744, 11228886041039065762, 11199776589751853424,
    11193961551128117553, 11185243269165814204,
];

/// Magic multipliers for 64-bit division by the odd primes, from index 2304 on.
const MAGIC_U64_18: [u64; 128] = [
    11173626867992540184, 11167822082153198243, 11138832246946049547, 11124358602642612533, 11121465572981960753, 11072370533279489130,
    11069487666478669848, 11063723621809395187, 11029186574718525985, 11026312136116114548, 11009077270635976739, 10991862550130831541,
    10977532312763436135, 10968940865086233452, 10966078164007084429, 10948913651686284953, 10906089889642781088, 10897540105489175864,
    10880455470578187327, 10857706879279956667, 10840668582296775598, 10837830792203659341, 10806651358091957718, 10781190252837258856,
    10764240791090844043, 10744491248032592942, 10730400773870435224, 10727584311218031152, 10710696947336928890, 10693829122419966167,
    10688210850246422133, 10685402526479112289, 10679787502800571613, 10671369024576232254, 10654546658913556918, 10651744820880280732,
    10629349524217938276, 10604195985276106449, 10601403833797516833, 10545673299177137787, 10534552843743322113, 10512337505714325515,
    10504015531985864226, 10492927004344481388, 10479078283916642927, 10476310130190854497, 10470775411881731327, 10445895370261319153,
    10434851311034802503, 10421058104394206317, 10410033021211658455, 10393511177367054489, 10388008099515396500, 10363270215757803961,
    10360524181893297708, 10335833413425088990, 10322134599714587519, 10319396401582628813, 10313921568737733314, 10311184933727271609,
    10305713225786932585, 10294776054069183935, 10256561392234443225, 10253835661693068742, 10245661575282454240, 10215729718661570171,
    10199429558218536501, 10191286428366280447, 10172303784219267444, 10147934473398380990, 10142524705901411226, 10134413891551906957,
    10123606628531531116, 10115506543278332302, 10107411049693282120, 10093928753492610307, 10083152079937240632, 10077766794456867494,
    10075074914037090547, 10050870833994686155, 10037441865092323289, 10029390557058554445, 10002585704956358271, 9973158592486065826,
    9962472912111503390, 9954463923627035677, 9914486621514705287, 9909164816252196630, 9906504662502962450, 9901185852066117256,
    9877275878837872936, 9869314848261432005, 9829576729364527411, 9826931486761685924, 9821642486048882063, 9811070418708502115,
    9803146556159803311, 9797866449504998515, 9789949989321914137, 9774130374552019296, 9755696546237006839, 9711028777984424597,
    9692677266419613105, 9684819653535507600, 9679583682435559703, 9676966427724151793, 9669117585312476728, 9663887457114732780,
    9645597321806300378, 9640375939640877610, 9637765976344557354, 9629938995978524345, 9593470696774030857, 9590869443026595115,
    9585668383152415057, 9577870410379399534, 9567479859520952502, 9554502500956431956, 9551908471906946942, 9538945532629380157,
    9536354385033774497, 9523405841024361084, 9520817570084210812, 9515642465001397515, 9476890139221320439, 9474310469563328765,
    9458842455412584359, 9443391570055251935,
];

/// Magic multipliers for 64-bit division by the odd primes, from index 2432 on.
const MAGIC_U64_19: [u64; 128] = [
    9430528896235317054, 9407405956580047359, 9392011962182061121, 9374073793796988052, 9361274963292545608, 9358716610191022806,
    9343376371663745582, 9335712598042739020, 9322949030866852453, 9315296518184748084, 9297457046560085661, 9282184308661868512,
    9277097131964648603, 9259306703542801474, 9254227916910245248, 9231396400090282963, 9228861887890859874, 9216196286334134594,
    9206072148776133336, 9201012858427601902, 9190899829509989665, 9178268942483245211, 9163127109194325759, 9140445456997152202,
    9117801040400284098, 9107748783441133864, 9100214400852476701, 9077635954855385653, 9057597274395949015, 9040087348568406975,
    9032589917621747532, 9025096575625293058, 9012616749772690121, 8995164030313446857, 8990181613155074927, 8982711378816408695,
    8980222204584136272, 8965296641328976676, 8950387314012634277, 8945421141648883485, 8937975257931574980, 8930533421073481464,
    8915661874745230303, 8913184854336190808, 8893384824355244954, 8890911835444922961, 8876083291806634587, 8868675050847120053,
    8863738454972262298, 8846474412194389657, 8839082216513650089, 8834156310246515873, 8831694024007610141, 8816929635519377497,
    8794812995437980376, 8789903058598590022, 8745793143768274079, 8723791720209385201, 8709143873067688483, 8694511810952771017,
    8692074666797546097, 8687201691308834494, 8684765859739642125, 8679895508362637378, 8670160049358708550, 8655569956121170142,
    8650710080023114693, 8607049499548944887, 8599786411203177695, 8578020526250862716, 8575604256895955441, 8561115709468795525,
    8549053782898665407, 8541821797046111525, 8527369443507396368, 8498511122087470065, 8488905398565061252, 8481705599178343754,
    8474509647722532621, 8455339232504102190, 8440979328599713424, 8438587501583540381, 8417080192203722788, 8405146548977782903,
    8381311041789742129, 8369409149630787649, 8367030038312565554, 8359895236562060755, 8338513594891263174, 8333766750237751887,
    8331393958776807635, 8284026271106022937, 8276935567623601369, 8274572835680598570, 8255686010105202431, 8253327033994613204,
    8248610331948470173, 8239181925465521774, 8217992341982123684, 8206234885120845993, 8192139616181356117, 8185097570882887357,
    8182751049745868771, 8171024643861217126, 8161650952364075507, 8156966581953253162, 8149943118058591446, 8135907309698451698,
    8133569448444908934, 8121886307694104811, 8100882515394694832, 8091558152541253467, 8084569177719785493, 8079911905897881893,
    8056650051222030239, 8052002575157862674, 8045034416333599866, 8003302301265925886, 7996359728176558335, 7994046346976970731,
    7982485509925382902, 7975553859031392886, 7947863576930795415, 7940950072504033199, 7924832637922339984, 7906436804666634780,
    7899544982094597247, 7878891125424396704,
];

/// Magic multipliers for 64-bit division by the odd primes, from index 2560 on.
const MAGIC_U64_20: [u64; 128] = [
    7876598251218140208, 7865139868627739437, 7842253003979944638, 7830824495925478048, 7821688841301294821, 7814841267877735492,
    7810278201922027697, 7803436575411679433, 7801156825474719840, 7789764012896402955, 7787486637080543752, 7773830680435877932,
    7769281853658041192, 7767008032076240802, 7762461572013666845, 7753373381420897318, 7742022002600599043, 7735215895420893542,
    7721614288440956517, 7701238355122675203, 7685412331431366951, 7671862408047981434, 7653817686613199253, 7644804672667389178,
    7638048996126662399, 7620050950108404629, 7611061237637372011, 7606568706227286769, 7604323021377919287, 7597588289051213060,
    7577404968668482024, 7550542486322902359, 7530431989177318785, 7519272929053221156, 7505894705531983199, 7503666341750654771,
    7499210761990950052, 7483628274422857434, 7472509380572622706, 7465842620135117110, 7459179288366246068, 7452519382621678829,
    7432560195131249316, 7419271151901924586, 7417057638126252901, 7386108176699208902, 7366251177915959225, 7350827938040462782,
    7333223931037946459, 7320036684520321242, 7304668604998520951, 7278365932134368347, 7265234734717628926, 7241195657169484012,
    7234647344368988018, 7232465315275307017, 7221560729352768965, 7212843726405683234, 7208487444787735739, 7206309858612928007,
    7201955795060957459, 7186728205129962712, 7173690369019842160, 7167176423231614847, 7162835632569929271, 7156327204502765185,
    7141153729588699553, 7136821753831591456, 7134656315952075510, 7130326539725669785, 7097899877070763110, 7091424408580134782,
    7089266648579941323, 7082795555775374150, 7072017686214228827, 7069863204238634773, 7037589574729024520, 7013974085058595782,
    7011829392462144773, 7007541091040294148, 7001111346966345633, 6992543406081475166, 6986121235640159638, 6979702306945586034,
    6962600993645721299, 6949790097430929346, 6936992112714443150, 6930597956069808868, 6922077423218915558, 6917819302032741505,
    6915690777434433084, 6890176318934728359, 6877438330551816157, 6873195180146879807, 6866833119946572483, 6858355344690188300,
    6852000738884705588, 6845649323809783392, 6835070716006228524, 6832956056243799869, 6826614198954853927, 6813940025388387594,
    6784416330653039166, 6769680347771178740, 6763370194435528559, 6759165179754215006, 6746558548193277849, 6738161130545045583,
    6731866740107859446, 6719287393350467009, 6715097070498689959, 6708814202012059244, 6694166370382890565, 6687893948965594434,
    6675358490910147788, 6664921823316520727, 6658663984076492632, 6652409262972530656, 6644074481241035216, 6637827026730942527,
    6631582682599396953, 6627421513352902749, 6625341446524161411, 6621182348026216947, 6612868289265225025, 6600407536422408247,
    6596256705480678627, 6581739624990899188,
];

/// Magic multipliers for 64-bit division by the odd primes, from index 2688 on.
const MAGIC_U64_21: [u64; 128] = [
    6563099519625488616, 6552755897642224196, 6550688199865345508, 6534158922831944742, 6527966078226761542, 6507345420049049192,
    6501165860968503086, 6490873394309532808, 6482645533553804154, 6478533638851356692, 6447737611860012544, 6410882681536349908,
    6398621942456940528, 6390454833605014163, 6368022944941238128, 6355804439167006070, 6353769191268686080, 6347665451181321158,
    6335466979847686192, 6319221010377578608, 6313134261903219750, 6307050504582540090, 6305023249795406714, 6286792888003881314,
    6282745342782474214, 6256468554812847639, 6252430927610866288, 6244359631503249633, 6226218488326228921, 6216151589406633759,
    6208103983039422050, 6198051857603474330, 6192024515835737887, 6177972177046735807, 6173960166741533365, 6153919709095974710,
    6131912853355653417, 6113936508441299116, 6101966879761373428, 6093993606746564147, 6066127892198011033, 6054204805837876026,
    6048247611151435837, 6042293312641969162, 6034358749477625386, 6028411200506530797, 6016524767899359605, 5992786505165416539,
    5976986574288936701, 5963178383477161923, 5959236053367388965, 5945447920451886073, 5933641914565953057, 5927743196233372992,
    5917918339419336584, 5906138961112356742, 5886531954120028005, 5880656007077448318, 5876740285363104912, 5868912622348800987,
    5851318787861963734, 5839603702710336180, 5822052240873280012, 5812312386029365082, 5810365353125978998, 5806472224782387050,
    5787025312784237718, 5777313546909796253, 5763730144551135986, 5759851969993727683, 5754037037205073334, 5752099347056475341,
    5742415548816943536, 5719206024531946300, 5701828089101146613, 5699898750055661797, 5696040996678857034, 5676770704887829849,
    5661376606197702696, 5647922877592500736, 5638322261203568971, 5624894244450401686, 5619143962573228468, 5615311967344331086,
    5609566262077235003, 5590433713196027076, 5584699881576680140, 5575149572012921355, 5569423028968925374, 5567514787969149563,
    5556071707067742089, 5550354255216352047, 5521807804133129988, 5512307407019553278, 5504712510167873885, 5499019496678856551,
    5495225657637324740, 5489537152573051931, 5481956682686259609, 5444126240005897867, 5442237857575852777, 5438461988143476691,
    5436574500999626438, 5425255839694918483, 5408297948758366904, 5404532799877418647, 5398887304542631404, 5391364133385711521,
    5381966842335490658, 5376332023216889379, 5359443544238327056, 5342578993208256537, 5340706629029993753, 5329478630429007459,
    5314524443422198349, 5307054401840202279, 5301454952232953683, 5297723452209236433, 5292128400363204437, 5286535984687503132,
    5284672431622574620, 5236322564511448555, 5223338935544260005, 5219631941611484654, 5201114374994121455, 5186321172695991934,
    5184473323659954126, 5180778492342693522,
];

/// Magic multipliers for 64-bit division by the odd primes, from index 2816 on.
const MAGIC_U64_22: [u64; 128] = [
    5175238411237675215, 5164166039462378674, 5162321653248796522, 5156790223112447969, 5145735135037748933, 5134690397765288916,
    5129171906138125258, 5125494346417367518, 5112631917533173074, 5103453059080201272, 5097949176292964154, 5092447865513727615,
    5079621465827076546, 5070468306452864731, 5057665842194892424, 5043051512009742184, 5035751159860029495, 5030278872937226159,
    5019341946994458142, 5015698569123759232, 5008415206384918423, 4988409254996476662, 4982959008088757906, 4981142822430698272,
    4964809813246356334, 4944878147075812239, 4939448126828792771, 4937638680258284175, 4921366252471087320, 4915947141353045971,
    4901508458536367012, 4888889243177086510, 4879883866216917236, 4874483975494298354, 4863691690715830643, 4861893947626760703,
    4856502381717202976, 4852909389934382677, 4845726729238873777, 4829581922952414088, 4818831146925319535, 4804512217682323884,
    4802723590712717985, 4799147162198404672, 4786638322697205019, 4783066840833109595, 4775927170184358537, 4765225889322382156,
    4754534466470642119, 4727848948845928481, 4713641757445457670, 4706544692035826534, 4702997790152980932, 4701224746698466895,
    4695907245533703768, 4676430625319352686, 4665820825434507856, 4658753032949772850, 4649924368738753277, 4644630407984859026,
    4639338873520123645, 4634049763676930776, 4621717927103889111, 4616436887308212792, 4600608265761778973, 4591823971696347967,
    4581291653644427102, 4579537203472825717, 4570768961106890536, 4569016113904757007, 4565511220283465758, 4542755405517413255,
    4539258504809465282, 4528774182678550834, 4521789946403477505, 4518299420356577610, 4502605172932864093, 4495636835210423613,
    4486932361670597391, 4474757189318569705, 4460858526332688402, 4455650872197112551, 4450445585266719734, 4443508882223139995,
    4434843911576990662, 4429648077345006434, 4422723967882313518, 4417533635838225642, 4407160036363214363, 4398522557958863191,
    4381267173214976779, 4372649252097937809, 4365759598680326007, 4362316331834185879, 4351992765098376094, 4329657064513990619,
    4314219506789547957, 4310791779884612285, 4300514790826428039, 4285116699007329561, 4279988633261707826, 4254382970543071187,
    4249268760267641617, 4242453396629947178, 4237344559431687074, 4218631823673724374, 4208437883762604127, 4206739785201162598,
    4203344351640416060, 4198253109346477581, 4193164155337026434, 4191468345574916657, 4182993106003472508, 4181298819537728261,
    4177911007598775942, 4172831191317376026, 4167753655622431899, 4166061650255679291, 4160987152954419187, 4142400132251604906,
    4127215287208945130, 4122158207861392168, 4107000555495126843, 4096906760114137914, 4090182581050322638, 4080103830263712177,
    4075067834607248092, 4066679510309018438,
];

/// Magic multipliers for 64-bit division by the odd primes, from index 2944 on.
const MAGIC_U64_23: [u64; 128] = [
    4056621765511422561, 4054946348332461092, 4041551986683862848, 4039878812615904556, 4031516675511919782, 4029844994349593417,
    4021490316779040265, 4006467538315060671, 4001464408754688268, 3984803401234397149, 3981474167072407768, 3979809920551368778,
    3974818662568299468, 3956536375766545911, 3951555470786486749, 3946576780116054555, 3931653979206467316, 3926684131025044652,
    3915096398611656899, 3905173605812490590, 3891956905902207406, 3890305917322361002, 3885354415495553766, 3880405108402315830,
    3877106788916093299, 3865570340941608820, 3855691442923831676, 3852400420602418996, 3850755273640575182, 3835959867283355354,
    3822824868828656665, 3793327665769994628, 3783512621789495398, 3778608347782325700, 3767173452559772825, 3744338925200635519,
    3742709683763176528, 3732939256834410053, 3728057269234598476, 3718299738666767088, 3713424192863553468, 3710175020433426551,
    3708550791492757051, 3695565527642680604, 3671259139262550816, 3664786445634728567, 3645391075126915888, 3640547547853447155,
    3616361733762601808, 3608311561978943563, 3606702232515213511, 3592228829171353600, 3589015096838900404, 3584196255310187691,
    3574564892275168679, 3568148660650159473, 3550523287086495815, 3548922379742454765, 3544121055526617750, 3526534119147861862,
    3512165716943791915, 3510570387669887789, 3502597217089482022, 3501003277777852159, 3493037052467886131, 3469173036160090071,
    3467583947438060586, 3445360877480719920, 3440604653788532440, 3429514831408416875, 3416854501445604002, 3412110654794212437,
    3396312689464465923, 3383690749047304441, 3382114032076248368, 3377385247419617152, 3374233862369094908, 3349055508279940591,
    3345912298908777236, 3344341034164365518, 3341199184312817535, 3336488107893914720, 3334918201787352545, 3325503515071004785,
    3322367094487033804, 3317664157569553535, 3312963252231432126, 3303567531029917542, 3302002366304645749, 3297308223398782762,
    3294179920367151882, 3289489153206719640, 3283237944743717513, 3278551897512623828, 3275428988687206474, 3259827901990329426,
    3256710373431110743, 3231802345517740547, 3224030307221670819, 3217816687815647745, 3205400132591791199, 3203849063842459107,
    3186801962842990790, 3185253557443674142, 3182157411505841355, 3177514854037544845, 3171327876768420823, 3166689966670703233,
    3154331929839552746, 3143530234513278950, 3140446019762631069, 3126577950892132504, 3120420082543867850, 3117342466453645821,
    3101967551805210331, 3097359351721342185, 3088148861817705763, 3078946243847322689, 3074347883684067758, 3066688314350190967,
    3065157054704790082, 3057504025024469067, 3055974072472177507, 3046798926941680022, 3025420673806152528, 3016271578291818528,
    3002562544484074847, 3001040399459187956,
];

/// Magic multipliers for 64-bit division by the odd primes, from index 3072 on.
const MAGIC_U64_24: [u64; 128] = [
    2987350809709993342, 2979753030516267652, 2973678684266088462, 2966090593027300110, 2929742463310450059, 2928230635697237428,
    2925207621913776439, 2920674704165756361, 2914633804062459105, 2907087480581421902, 2905578855652650771, 2898038927360916528,
    2875451058651892787, 2873946900411805210, 2846908295590289416, 2842408527541270325, 2834913138814286970, 2830418438427960699,
    2828920626840044926, 2815449806036995479, 2812458606532230376, 2807973384967426737, 2801996032709915722, 2790051408401068746,
    2779610872644157952, 2767691394907813609, 2763225041252888728, 2752810859384636557, 2749837256981425253, 2734981749163020391,
    2732013145985434102, 2727561801069394941, 2726078435215965473, 2718664722372754745, 2709775117334324600, 2708294242439070768,
    2703852861358665864, 2694975691507285408, 2690539900389640165, 2686105970247885973, 2683151050117294518, 2674291245739576144,
    2672815333974127758, 2668388836037001895, 2665438868112759423, 2656593907902520701, 2652174206415918291, 2646284150016399718,
    2643340354862884355, 2641868765397122053, 2637455228927951867, 2624225696824648104, 2616883127994967580, 2612480042491353773,
    2606612124518116782, 2597816376358846092, 2593421257743495388, 2577321517306920415, 2575859126210964065, 2571473173319711827,
    2562706755504399493, 2549570831542961058, 2546653967735056010, 2536451323496495087, 2532081796811205937, 2529169789888830845,
    2514621873071132483, 2510261432212668242, 2498642454143616802, 2492837795113484632, 2489936671928444552, 2484136836547541336,
    2468203845300675967, 2462416042770250085, 2453740342711546803, 2449405191935506197, 2445071839168981110, 2433525013558215401,
    2424873267104459895, 2411909082276320476, 2390337859735744236, 2384593066839595000, 2381721858109289477, 2380286550530347339,
    2377416528740394550, 2373112978862162894, 2354484798836461233, 2351621883256851968, 2341607881695565396, 2324463438311155142,
    2308772521672606382, 2304497294250714352, 2303072609799925826, 2298799729952959534, 2291682172810316205, 2287413982316057665,
    2277461700189532533, 2273199360538368974, 2268938773794289755, 2260422854703815085, 2253331602031504765, 2249079181240103856,
    2247662095872241234, 2239163657282357879, 2232086955243087273, 2223601301502108862, 2217948066980154287, 2205239588435194954,
    2192546731334139693, 2185501883464035692, 2181277282715203097, 2175647172147450444, 2164396165909727116, 2160180202952044108,
    2155965964373361482, 2150349660141083453, 2139126232707183301, 2125114137069286058, 2122314006642801035, 2120914227264097959,
    2113918187160361897, 2112519550225504585, 2105529218844750766, 2097147093313341609, 2092958593975880691, 2087376584214645393,
    2083192067557119150, 2076221661777990820,
];

/// Magic multipliers for 64-bit division by the odd primes, from index 3200 on.
const MAGIC_U64_25: [u64; 128] = [
    2062295040303768622, 2055338814982731644, 2042829493536120984, 2024787399427393802, 2022014512430930839, 2017856590112589677,
    1997092291404074635, 1995709502918490840, 1992944487049065615, 1987416698654958961, 1983272819091833701, 1974990099989376975,
    1966714094110332460, 1954312654742795320, 1951558825332549669, 1946053396258215577, 1930928778237809992, 1926807775267986803,
    1925434477984512870, 1917198580581274357, 1893899659080251775, 1889793617886673105, 1877485434622871213, 1869288252688276750,
    1865192140790753749, 1863827137181029593, 1844736332054810644, 1835204381389417863, 1824321683268032722, 1814808898077214293,
    1812092599123326601, 1802591285484933908, 1794454392864958225, 1791743548325289090, 1787678642700403439, 1783615369622373394,
    1782261307881244789, 1757919154799810532, 1755218086890514805, 1751167838854841319, 1737678733493660304, 1729593915119000317,
    1713443692935366750, 1709410176425984326, 1694634414421953078, 1693292237466091851, 1682561258046903390, 1670502566797473623,
    1662471462646101844, 1654446768208395488, 1642421727989228249, 1641086500459289146, 1637081882608838502, 1633078861124670467,
    1629077435052432753, 1626410703539961464, 1622411934368890144, 1613087665822343229, 1610425180274407881, 1609094202521066101,
    1594465097316428536, 1589150712571551084, 1581184417967814521, 1577203645749639008, 1570572540765879300, 1566595985467172132,
    1561296368755596422, 1553352204201793630, 1541447778653617174, 1533519364868922828, 1529557516141883903, 1522957925276691318,
    1521638530344314704, 1507136684462784811, 1497919199043099170, 1493971454523041244, 1490025272486384509, 1487395352050254055,
    1475569291285490979, 1471630388587037416, 1458511954456371503, 1444101620696798951, 1442792624895778494, 1434942266694835693,
    1419260126747758910, 1416648841650265260, 1404906548882802398, 1393178130882780657, 1391875828726189215, 1377561780716822966,
    1376261527815866918, 1373661533639190469, 1365865641696216760, 1360671786542589399, 1352886107669287762, 1346402715881285915,
    1337333097347777856, 1334743304217423786, 1333448661894185004, 1321804502256520509, 1311465641170145941, 1286954134227328909,
    1283089454616152186, 1279226288438886441, 1275364634806699726, 1267645861625714271, 1261218164473572096, 1257363557653182268,
    1249658865692663750, 1244525750941540913, 1240677670332222392, 1238113118699820428, 1234267543759096428, 1225300376035447485,
    1206112505518415590, 1202279422286111595, 1195894271830843775, 1190789138574473834, 1176763695251737459, 1172942050712357156,
    1167848839530367499, 1160213979010763262, 1153856134057061678, 1152585059824204986, 1146232160685268240, 1144962075038206701,
    1141152805881964226, 1134807314651412049,
];

/// Magic multipliers for 64-bit division by the odd primes, from index 3328 on.
const MAGIC_U64_26: [u64; 128] = [
    1133538709721972707, 1127198149900907481, 1119594896520422403, 1108201085208457745, 1095556847932638658, 1091766764681843392,
    1089240859140536855, 1084191006820177531, 1070317364646154928, 1066537064144810891, 1062758227788514658, 1043885978440017512,
    1040115909117573287, 1031324750036608516, 1027559538111531130, 1020033479583887802, 1012513235865009353, 1008755292453330594,
    1002495277856283429, 1001243758320131707, 994988575845451033, 976247147887266846, 974999003992295486, 965019624781555593,
    960033779930111509, 957541817828909023, 956296076751546428, 952559813042737847, 941359650424091370, 938872481478370111,
    937629136286747245, 933900057468574883, 931414801913651903, 915276164200521973, 912795682473857645, 907836625189445770,
    904118999162830091, 897926128463923833, 896688029951832344, 894212308311841126, 890499913856096273, 885552270913040490,
    883079398751021675, 879371276461966988, 860851984913586576, 853454202331017603, 852221789682887558, 848525495904984962,
    844830617744014508, 842368151689005597, 830065245017194800, 816550161521481475, 811640283104243502, 809186282357938664,
    807959516495735785, 805506453643844803, 761457960270383792, 756576122221273665, 754136133631847557, 749258016141335594,
    735855964604516086, 734638524180671066, 732204106869646511, 723688510328841945, 717610569685223038, 716395444006410321,
    713965654864150713, 701825945846142222, 698187032213692528, 692125248625710625, 681223706022564057, 677592617761153841,
    665498940402270162, 655835005622831134, 652213549195266463, 647387076030303309, 643768821698798426, 641357413874197630,
    629309506853915654, 622088060026988570, 608862931344342882, 607661556505578963, 605259261220148241, 604058340716197300,
    596855995831880203, 590858200464949577, 580071684020140454, 578873936655705611, 565708661399264393, 562121293355909165,
    551367307228770268, 533471011143482810, 532279123480771074, 526321929847201181, 517988138737177194, 512039911715740463,
    507284015949430146, 497779379053622213, 468138731538581418, 464588085578205709, 458673303681202688, 453944141396748605,
    448036014668885675, 440951136343086804, 437410689241949130, 426797307228862452, 425618778933821183, 412664675075652820,
    409134823483404287, 407958499898938585, 405606292984600128, 402079082837724176, 397378188575406060, 393854056369137639,
    390331242047081105, 384462811468011154, 373908845533048483, 372736912850259940, 359855279369524560, 358685096166147210,
    349328870328340961, 341149806479258485, 335311974741947230, 331811016765908553, 330644320789363838, 323647188201282386,
    317820226644795616, 306177150108106913,
];

/// Magic multipliers for 64-bit division by the odd primes, from index 3456 on.
const MAGIC_U64_27: [u64; 128] = [
    303850268422612896, 295710727918757192, 292224516280670270, 289901095606792805, 269016207657590452, 267857301172475300,
    265539918715752144, 262064920914688917, 255118795858672986, 253961609776343486, 251647667166947514, 243553375575089779,
    236620986943698079, 233156720731394871, 230847923550114897, 227385797689459394, 226232040939813166, 222771625932619906,
    220465395031827198, 208942781860171151, 203186808006982504, 202036039433773203, 196284326108928703, 192835000801367233,
    185940177926174390, 184791536662935126, 171018879668173070, 164140184035901981, 157266569462852661, 153831665814545604,
    150398030321294379, 148109644176275663, 134391145229755118, 133248850623113289, 130964682700522680, 117271460436039348,
    116131269695988026, 112711537679026092, 110432416245766819, 107014783447346612, 102459897423556291, 93356831339510966,
    89945484612218060, 88808647989095692, 83126555863870026, 76312642109238792, 68369407079329058, 64967248598186949,
    45711942667435791, 42318104962169773, 34403992677294850, 31014303917525918, 28755202119973932, 27625858357888934,
    10702254645958090, 18443366683198360096, 18434363330867438979, 18429863302510720315, 18423115318605833871, 18414121847399975924,
    18409626756894063357, 18407379622739833340, 18375948491689893260, 18373705462264291003, 18366978013279369323, 18362494412866862680,
    18333377609780337785, 18313246792426890587, 18288672366006914236, 18286439956390693734, 18279744355206484922, 18261901346222710089,
    18255214686866943564, 18252986341718916698, 18235169316909411722, 18221817897069943507, 18219593605300159182, 18206253519433254518,
    18201808980967417333, 18195144193942046442, 18188481830549037272, 18172945733779291407, 18161856586879406829, 18155206321840697399,
    18146343059342153282, 18133056211159254542, 18128629405691082962, 18108722032989041554, 18106511440293688934, 18095462485992687441,
    18086628130655054311, 18068972228420788636, 18062355663995554376, 18055741496948655900, 18022706576826789593, 18020506374682025553,
    18009509344903553379, 17989731396154795553, 17987535170877084553, 17976558014646604412, 17967781050981829893, 17963394155204377087,
    17954623533849063744, 17941475521589764362, 17915207970523888235, 17871512891911536939, 17869330894436958484, 17856244413561977008,
    17845346215222908374, 17838810436439296561, 17825745938430901885, 17823569436675050548, 17810515909334240926, 17806166821262385132,
    17803992668460503700, 17799645145090231753, 17793125814915082657, 17773581887719851108, 17758395623053922815, 17745388956695776490,
    17738889127362889185, 17734557204673986968, 17719403639654769882, 17686974419120922566, 17682654916596451633, 17674019008982765893,
    17663229928340365488, 17654603303321211806,
];

/// Magic multipliers for 64-bit division by the odd primes, from index 3584 on.
const MAGIC_U64_28: [u64; 128] = [
    17648136038989495191, 17637362412713430646, 17617986083941746816, 17609381060193313806, 17605080088000679342, 17590034762389925974,
    17572855473846661319, 17566417462667140413, 17557837026883984874, 17553548342080007204, 17547117230206522303, 17544974036821550076,
    17534261897141639631, 17532120234335720094, 17519275609586470004, 17514996105801683019, 17512856735791896218, 17508578759310380416,
    17502163702752108699, 17493613854007818385, 17489340454533638977, 17482932260425116400, 17448793787112597935, 17423232474806283020,
    17412592669227273191, 17404085368318536956, 17384958692069789050, 17374341576669101817, 17372218908561467753, 17365852413378435312,
    17355246615858049140, 17353126210119675626, 17348886152051534895, 17329818313157637124, 17323466880358240635, 17310770777798306491,
    17308655636876623733, 17291743513561834399, 17289630622989410065, 17266405304879830521, 17260076365627341042, 17253749669155202680,
    17245317560568419944, 17226359871955093984, 17222149786811180533, 17203216694614271766, 17190605795542259094, 17182203485001632102,
    17175904351744353406, 17171706166844031800, 17150730076481231186, 17144442066209463155, 17113035307254332689, 17090038889182631421,
    17077507920490712106, 17075420284843299285, 17069158849837825649, 17050387782138854724, 17046219128035234935, 16981729964758026695,
    16977577419964934120, 16975501512584484972, 16963051175832909786, 16956829288946880127, 16946464334951313645, 16944392072390427152,
    16931963591112349257, 16919543835913043672, 16890598290285338177, 16888532564253479241, 16884401836645803170, 16869951892362990078,
    16847268702240851990, 16841087433766707899, 16839027492054120627, 16832849109663056862, 16826672890508030000, 16816383996022653113,
    16801989623541787414, 16797879103883788949, 16795824203544017306, 16785553295061152628, 16779393623036541648, 16771184076569504949,
    16760927522953790398, 16746578380211125358, 16736336151389519270, 16730193675137574253, 16728146659644027910, 16715869567971294628,
    16693383810911823692, 16675007752635678759, 16666846783260711091, 16656650903340571057, 16638313232922748779, 16626098759405107200,
    16624063840613478604, 16611859284891184246, 16607792987056220261, 16595599751173174687, 16593568369832060938, 16583414994837554371,
    16581385025894341836, 16575296530439733552, 16557043736888623521, 16550963699634662110, 16544885774176904569, 16510484033008465176,
    16504420158116438575, 16502399333958025925, 16490279294629296886, 16486241149355989307, 16480185681429534124, 16462031867344104782,
    16443896914908566504, 16441883083216054419, 16425780794742554846, 16419746267900034365, 16413713829189297103, 16405673823907110959,
    16399646253290972257, 16389604934002437973, 16371545134971914204, 16363524566753150297, 16353504051297765081, 16345491791678227897,
    16335481653902991892, 16333480317516581895,
];

/// Magic multipliers for 64-bit division by the odd primes, from index 3712 on.
const MAGIC_U64_29: [u64; 128] = [
    16329478335594282194, 16311480808111821396, 16285517241963421485, 16273547135533366754, 16251623355888599262, 16249631657847121883,
    16245648947630281791, 16243657935376194739, 16221771874058770908, 16215807740225969637, 16209845658097608741, 16195942106037394389,
    16180065985999702092, 16174116191894537124, 16154298303422855571, 16144397864961917517, 16132524814898588160, 16130546765595690346,
    16112754500219986554, 16071310336667320003, 16067368457041845156, 16043736072780681893, 16041768168170720393, 16035865801490230886,
    16026033011882543246, 16014241063961243821, 16012276523577715001, 16006384246123705950, 15996568260391966226, 15988719498074684426,
    15984796458164481443, 15978913574000365937, 15967153834418467249, 15955402126302661318, 15947572112088882898, 15943658441427966511,
    15937789605138799438, 15926057939728484684, 15896763770233210656, 15877262048053861539, 15871415849492230390, 15848050956633677646,
    15842214703685835817, 15832492028443429208, 15820832093830037792, 15818889542532311560, 15809180088672618760, 15789777679133165235,
    15783961241425629026, 15778146779689909775, 15774271569131028527, 15762651201047209320, 15749104075376216911, 15739434124255247036,
    15722041987018782086, 15710457056870765812, 15702738133421014603, 15696951229892255222, 15685383304664461618, 15681529071270522763,
    15668046106458893081, 15658421937931184546, 15656497755809734534, 15644957221082732153, 15616140026897057798, 15600790767719720773,
    15598873082916350964, 15587371509033872689, 15581623635768568538, 15577792798729422089, 15575877703641901251, 15572048160148938823,
    15566305461068862551, 15541442819782792131, 15537621023825915585, 15520433572735593919, 15518524929033380273, 15514708285046219228,
    15508984927066483401, 15495637924061994969, 15444254766093907068, 15438555127866510685, 15389238450700008537, 15387344522037255770,
    15372200722067133832, 15366525291508169267, 15360851765509363195, 15349510423358720860, 15324963600526534501, 15321190330765998640,
    15319304012055026065, 15313646320175482167, 15292917660951193960, 15287268807241118773, 15285386276317769870, 15274095501605758270,
    15262812282831428635, 15257173504551040392, 15247779731709472736, 15230884129611872869, 15229007886362572252, 15217754815617651044,
    15206509263000332712, 15197143706732637311, 15180298835100472437, 15169078288569156354, 15163470822857747300, 15155997111342820030,
    15150394008569001443, 15141059655199657806, 15135461532408095394, 15128000270852038484, 15124270883237747118, 15122406500100716196,
    15118678354994370830, 15100050043853763164, 15077723345791548595, 15072146314030742135, 15066571137518490818, 15057283296925627685,
    15044288965452405741, 15035013469554335573, 15033158986874490443, 15012773227628058047, 15007217782964471538, 14994262250171645992,
    14985014440010455428, 14960994053646382137,
];

/// Magic multipliers for 64-bit division by the odd primes, from index 3840 on.
const MAGIC_U64_30: [u64; 128] = [
    14957301672874659230, 14940696054839405127, 14933321078418707895, 14922264720754252925, 14911215684978927585, 14902013743030101765,
    14890978111841262567, 14885463034692366681, 14878112436327914953, 14863420961273204693, 14857914997191276912, 14850576542552578957,
    14845074823507124911, 14839574922260303686, 14819424155415380959, 14817593477252921893, 14808443107943384173, 14790157463546907151,
    14781022180162563787, 14775543420165772650, 14735420985841656759, 14719035181033231153, 14713576841742327988, 14704483601027311156,
    14702665551304273132, 14699030050015647154, 14693578292984414083, 14680864498198188902, 14677233776925546467, 14653653473442357447,
    14650028713944216137, 14648216631884063723, 14637348305115033774, 14628296817500789407, 14621059192644264810, 14617441567912557476,
    14610208692543194405, 14599365310830512751, 14595752430913106014, 14584918529493518816, 14577699874568897170, 14557864832201862147,
    14550657995636442181, 14545254933321236658, 14536253760427604271, 14520064020278318219, 14514670971540310006, 14509279687014194390,
    14502094050479736622, 14496706879083024745, 14485937819412820955, 14482349697287892742, 14475175798152030986, 14459045948191675274,
    14450091748071426770, 14439353138407343320, 14433986462222919750, 14423258362861023297, 14421471026875782516, 14416110184985889021,
    14412537261797207502, 14410751091529194198, 14396468717038069203, 14385765081789461847, 14375068420918341163, 14362597788982911128,
    14353695995059723548, 14341241595641135231, 14335906890702661273, 14327019572415890267, 14316361149050663423, 14314585419112571761,
    14303935080372456748, 14298612507309142680, 14295065086289071863, 14289745395667609280, 14287972549577908099, 14277339504089467812,
    14273796690483188653, 14250787087262757224, 14245481773788465494, 14229576158055974635, 14224277724918375166, 14215450820371694831,
    14210156966692111712, 14208392730121494945, 14192523174721269268, 14183713418115576585, 14176669036219184513, 14173147985722983252,
    14150279670854019844, 14141492700547913266, 14123932964160674284, 14118668732761616520, 14104639098013682039, 14087119044636721823,
    14076616062273585096, 14067868755817066138, 14060874297707511890, 14052135455703313642, 14050388251083576922, 14036417374409027924,
    14031181392121498399, 14013740302270610420, 14005026780037238568, 13987613762113408026, 13984133400728551631, 13958054479233037569,
    13956317375662695690, 13952843727181000597, 13945898664015299667, 13932017466173919866, 13930283152906832720, 13914682690073117622,
    13911217961959439437, 13909485876097186995, 13904290730931438904, 13895635861939587599, 13880068761935798940, 13869699017916238294,
    13857609388456206734, 13842078864102717680, 13836905340519336539, 13823117379314209821, 13805898980865300310, 13800737043808364966,
    13797296670286105566, 13790418125021926871,
];

/// Magic multipliers for 64-bit division by the odd primes, from index 3968 on.
const MAGIC_U64_31: [u64; 128] = [
    13785261141707015284, 13781824069358593054, 13776669835041925707, 13766366310649988332, 13759500954252970022, 13750923372814249879,
    13749208404775339452, 13738922431831546191, 13733781909590397135, 13730355806906593143, 13728643029120384102, 13723505789635113615,
    13714947368324798186, 13713236230475736744, 13699553679757334196, 13689299404709044698, 13677344349074419227, 13668810468028066925,
    13663692315427720947, 13656870649041309438, 13651756301051597913, 13627910873482859695, 13626208984275463499, 13621104400112809049,
    13605800392038762797, 13580326146827952682, 13551504241968412830, 13549810451199247969, 13536266577752899103, 13526116194853278638,
    13524425090721442347, 13509213199812934565, 13495703666260041079, 13490640535558648387, 13483892190906522305, 13475460769432408584,
    13468718837524355687, 13460295426267464793, 13453559897967076474, 13445144485517746105, 13408169357152064013, 13403133936002205760,
    13398100106535138601, 13394745104119330696, 13377980690410520375, 13374629925780569063, 13372954808048382075, 13369605101610320340,
    13357886680930662394, 13334475716890337307, 13327793198996027660, 13322783154488729064, 13309430756588832232, 13297756612019754760,
    13272769467985648833, 13267776758805183155, 13242836770208484892, 13239514401761031948, 13227891596231213305, 13219594811342421423,
    13214618826393352156, 13209644405031163635, 13203014274187643837, 13199700250120431231, 13184795726249347746, 13174867174090118147,
    13169905234934671904, 13168251601246100329, 13150073040705366309, 13140166270779492220, 13133565208039336206, 13128616221289512681,
    13118722899700437541, 13115426503389609670, 13103894536166721963, 13100601236032604766, 13095662574727038118, 13094016697889738079,
    13090725459450628248, 13075923382540068335, 13059492918149643472, 13054567118270779695, 13041439178826826753, 13010304132546574291,
    12997213052064349461, 12995577433082020980, 12992306705543801171, 12987401889904405448, 12985767291429918879, 12953110984980590841,
    12918894813108526238, 12907505987618590478, 12904253556399345319, 12899376174550079020, 12897750717823264239, 12878258377891235437,
    12870143722954675898, 12865276947674819249, 12863655025371776884, 12849065282334590731, 12840965743175698383, 12831251828456735795,
    12829633429062010093, 12816692260683093002, 12815075367593470668, 12810225691645289109, 12797300575571433956, 12792456412469139687,
    12785999864457425280, 12782772591182318259, 12781159204636977321, 12773094771799039524, 12768258111077795714, 12761811560816332545,
    12753757116437535248, 12752146726430559735, 12737660693608764857, 12724795508443174442, 12718366895706786574, 12708728946794769563,
    12694283195413582119, 12684660134428608576, 12679850833848036755, 12670236689066932251, 12662229437384583242, 12657427064135642886,
    12652626173367575818, 12638232389087218195,
];

/// Magic multipliers for 64-bit division by the odd primes, from index 4096 on.
const MAGIC_U64_32: [u64; 128] = [
    12628643932732860916, 12617464873913059961, 12614272334261188466, 12612676310501048151, 12604698651347062946, 12588755621169640609,
    12583975904078101422, 12574420885224762996, 12569645582103599081, 12556918625098674854, 12536259581295168513, 12533083710280125619,
    12518800344072502500, 12517214116353434700, 12514042148397887489, 12488689781164656392, 12480775679024700340, 12474447312192926189,
    12469702736372262432, 12466540494644686109, 12461798344786323789, 12457057649612342469, 12446001680887059294, 12441265829829863666,
    12427066984712420821, 12423913458392007964, 12422336936801113418, 12408155485123279979, 12400282529710345165, 12393987057559847469,
    12386121330014827346, 12379831636177211133, 12371973126551217108, 12370401905403583430, 12367259943689810521, 12362548202205460865,
    12360977941902414815, 12353129040723944976, 12320207281865975188, 12313944448583244362, 12304554977867005114, 12301426427972397025,
    12296734796535067938, 12282668488620566447, 12281106360030355730, 12268615046558472844, 12262373197472635869, 12259253224165259151,
    12257693475235897670, 12249897106866564341, 12238988840335405480, 12229645066198316504, 12221862933434951662, 12206310507152771839,
    12203201914542588808, 12196986620433288229, 12189221046653063998, 12159747726453216422, 12156648570257467971, 12152001012590511021,
    12150452140373341116, 12142710130754636404, 12127237859337897228, 12119507591599269267, 12110236428644394615, 12105602955900223074,
    12096340224681827448, 12076290228677126868, 12067045260060335931, 12063964848245605104, 12057805890072063148, 12036269103996118591,
    12030121321067698358, 12027048359418657270, 12020904294813575850, 12002486957059638992, 11997886101178488242, 11990221096980273776,
    11984091871985546799, 11979496572972782331, 11967249224603089576, 11958070181833044766, 11951953897439563894, 11944312001471553357,
    11935146796452775913, 11929039730271180933, 11912257950715479768, 11907684319456621451, 11906160081921500500, 11898541189841972637,
    11897017870383949419, 11892448829510996348, 11884836818345273753, 11880271444807097275, 11875707445381199964, 11869624249249276148,
    11865063453673773980, 11862023685576159887, 11851389296748060342, 11830142891018570168, 11824077961361414524, 11811955388524302531,
    11798329094703277053, 11792276902668776374, 11789251714866322499, 11784715067920125913, 11769602738623402837, 11766582085654384473,
    11752996617620397042, 11748470842858352441, 11746962552695432892, 11728874816903462255, 11710808739287908277, 11706295599416160472,
    11701783810143641100, 11692764280971936622, 11683750146927718148, 11680746633660278541, 11679245101565914374, 11662738121369753376,
    11661238383756370600, 11653741936165935144, 11649245859189678505, 11643253178813762089, 11634268631623479182, 11631274974747373090,
    11616315623767114505, 11602864924690417928,
];

/// Magic multipliers for 64-bit division by the odd primes, from index 4224 on.
const MAGIC_U64_33: [u64; 128] = [
    11598384032626138787, 11595397513592681796, 11586441517789943446, 11568545536108189892, 11564074872610960132, 11559605540692125634,
    11519441376421305651, 11513500272518030717, 11509045990334583843, 11506077204619260225, 11486794431617141992, 11460136158203695167,
    11457177058569103113, 11455697728329310951, 11452739506896121342, 11433525325302514296, 11424665568123592480, 11415811063375871271,
    11412860728193014016, 11408436318324359794, 11404013219424332547, 11398117792501947007, 11389279017053526810, 11381917369075347462,
    11380445475391856559, 11371617162869615558, 11359854205701409570, 11346631967265118141, 11342227160911574834, 11336356111420875689,
    11331954342789923092, 11323154707709079100, 11309965001896059793, 11302642436481387054, 11301178355844058825, 11261702578408237063,
    11258782614120735008, 11257322847213055198, 11250026164189418507, 11228157608085022986, 11219419201170308381, 11213596455121606526,
    11210685939160678120, 11204866620524810424, 11193234831692394463, 11183064499968279190, 11174352626229908231, 11169998610203066888,
    11167096643891535387, 11162744760565820662, 11154044829956596978, 11149696781546138514, 11148247715921263697, 11145350010314367673,
    11135212507752977435, 11126528746433533458, 11123635292154723871, 11113512659415840827, 11109176509490437987, 11091844623596118839,
    11087514827778958259, 11083186301107350964, 11075974908796228128, 11067325885877108249, 11058681929136936919, 11044286580661418421,
    11031342771639968628, 11027030693207316383, 11022719876138806006, 11011230526417868027, 11005489210443472350, 11002619391605036938,
    10998315711823467716, 10983979192707888186, 10981113563997154032, 10958208608279823393, 10955347995620145948, 10945340232887155849,
    10938196001024392010, 10936767571397250871, 10932483115642052912, 10923917951378011240, 10912505498008377683, 10911079564907927554,
    10908228114198788591, 10903951976561860041, 10895403437628259960, 10893979165244630718, 10886859876855298667, 10881166933171144503,
    10876898675329407676, 10874053860238913731, 10872631659674610941, 10865522725859567379, 10855576008085760082, 10851315195239123340,
    10847055621331015752, 10838540188169501089, 10825776316968895192, 10801697114073313763, 10796037175283679673, 10788965331495381148,
    10784723866775231485, 10767770307640081663, 10763534990117958828, 10762123490489370192, 10755068038047475721, 10746605993051192503,
    10745196128995617648, 10724064497451541324, 10717027417247174670, 10707181206986644750, 10698746888334595416, 10690317448418841884,
    10679085777029580933, 10674876132361538759, 10670667704383108967, 10669265165341270251, 10656648391555119530, 10653846148822022289,
    10649643796386700393, 10628650226649504031, 10618863591393450686, 10616068619865205571, 10611877170302398838, 10607686929550059880,
    10606290451166783361, 10602101821348457725,
];

/// Magic multipliers for 64-bit division by the odd primes, from index 4352 on.
const MAGIC_U64_34: [u64; 128] = [
    10599310072385668939, 10595123454928812300, 10585359372764576640, 10581176775682461608, 10578389047094971078, 10572815195947165413,
    10565850891723484327, 10557498137720816531, 10553323564034329563, 10531079450694896591, 10524135161705367858, 10518582126415737090,
    10503322250068057396, 10501935785839529458, 10495005456218608465, 10490848850976978645, 10474234362563005852, 10468700438587541707,
    10465934270695996293, 10445204869115512904, 10441062555233294682, 10439682047879638003, 10431401773808045659, 10420368789888652131,
    10414855458714092348, 10410721842186401759, 10407966755577251132, 10403835111900766851, 10398328093850973657, 10387320362444458323,
    10377695486974008021, 10373572507085956400, 10369450706511866989, 10366703494387051447, 10365330084745825651, 10358465000002692534,
    10350231215460053080, 10348859375653980641, 10337889360768154394, 10328297451880841232, 10325558080528713246, 10324188590433554472,
    10321450001311964571, 10307764872241716722, 10295459383522306274, 10288627550797333762, 10287261573965422232, 10280433637352615405,
    10276338432756013608, 10268151525317292752, 10247704660349197873, 10242257079963510743, 10230007583539047068, 10221847062305748124,
    10215050174959908891, 10213691184217694650, 10209614985114948223, 10205539945313252516, 10202823895924052070, 10194678836443002928,
    10186538406919262830, 10185182118522861399, 10182469927157883313, 10174336435171557660, 10162144858647908088, 10145905570684601189,
    10144553128821706212, 10137792838181994851, 10133738198084797535, 10128333800274166793, 10117531133970177485, 10112132863160098870,
    10108085498877763846, 10099994210892898849, 10093254972883360746, 10083825383601216437, 10079786038247530305, 10071710777901148172,
    10067674861937526591, 10063640088133458896, 10060950873224425669, 10059606456004168932, 10043483334548859873, 10040797920649832288,
    10036770748867296739, 10031402957329273729, 10027378441179139877, 10024696062288874580, 10023355062353118820, 10020673441411110892,
    10016651957054208296, 10007272910653410578, 10004594318294147396, 9999238646228074557, 9992546890900982029, 9976499516317701922,
    9960470241553017990, 9952462382035924546, 9951128177697020340, 9947126316750771439, 9939125977586068726, 9924470392382048551,
    9904509874711666806, 9903180172113424599, 9899191812586239017, 9887233464308803898, 9880594296246845852, 9876612288650853574,
    9872631400408585954, 9867325289820185244, 9864672980097834036, 9863347011568512565, 9859369851098549129, 9852743732995408115,
    9847445071669931491, 9840824534630509098, 9836853699367424140, 9831560986163414507, 9820981500088684751, 9817016233368024769,
    9807768269166302609, 9803806708302206726, 9801166284834953249, 9785334103227679526, 9780060652401942342, 9773471608603975187,
    9772154168969871710, 9764252113596568719,
];

/// Magic multipliers for 64-bit division by the odd primes, from index 4480 on.
const MAGIC_U64_35: [u64; 128] = [
    9760302745269640029, 9757670447313922586, 9734001855440992097, 9732688098375695225, 9718244850984183089, 9714308352730131925,
    9709061399766219275, 9705127467976617835, 9698573357311079649, 9693332265636114796, 9689402727664274221, 9681546943173790824,
    9675003806320902098, 9665848527146881068, 9659312690864627696, 9655392647614262855, 9643639076013458230, 9635808822167917657,
    9634504204254471861, 9626679041601252897, 9624071623103069991, 9607135201686201168, 9600626634005205471, 9591519711215864687,
    9581119038400182804, 9569427500868770433, 9564234392302848456, 9552556934110101781, 9544777369589185903, 9537002126948515899,
    9533116125207965794, 9522758728377975273, 9513702294323132768, 9498190616071756600, 9491732495231059295, 9483986689283521293,
    9478825204307338147, 9464640951909296645, 9460775019866689173, 9459486613823727272, 9453046367651810336, 9414467228510474996,
    9410615181875608066, 9409331403020999197, 9406764200249141901, 9401631213997001440, 9391370914998606321, 9382399353343904214,
    9375994634597027628, 9372153218202664476, 9356798154266556908, 9352962036498767531, 9345292975754325134, 9333797315049535057,
    9318484552519271211, 9317209250926536268, 9298093775752940632, 9295547034320582967, 9294273838923348972, 9286637119991652181,
    9282820337021213683, 9276461366119585328, 9275189921902115121, 9272647383301641715, 9263752169777948664, 9259941682819432747,
    9249785505768309841, 9248516507139207284, 9242173257882239106, 9237100750184496215, 9223160932232843265, 9210500546972408868,
    9206704690263940955, 9204174697924884347, 9183951412648622103, 9180162839488400228, 9168803351071250511, 9166280288790829251,
    9165018930530202963, 9162496559689155186, 9161235547077156798, 9158713867391290407, 9153671889730305345, 9120943874997017484,
    9112145743570617411, 9098331448964220280, 9097076290707508253, 9083277095753458762, 9070744365837694753, 9064482278943411876,
    9059474661123084154, 9053217701833069679, 9051966651550989628, 9048214183576926920, 9045713107165739466, 9036962921871624066,
    9034463891888620163, 9030716198914244887, 9018231267968190500, 9015735643121714705, 9011993056111448560, 9010745753782082869,
    9003264318802634182, 8995786959696327092, 8992049807554870516, 8984578556015872693, 8974623214031260295, 8973379304335520278,
    8965918215459156004, 8959703742359664106, 8954734192221887780, 8952250092929824100, 8948524788368201669, 8947283245286826774,
    8929913450569285648, 8922475994086721385, 8917519934408087414, 8911327383318875701, 8903900020646439758, 8902662518934141679,
    8900187851429661059, 8891530040729949407, 8874230854868024707, 8869292250818301034, 8865589469308977962, 8863121505946381127,
    8861887691512820128, 8859420397065620040,
];

/// Magic multipliers for 64-bit division by the odd primes, from index 4608 on.
const MAGIC_U64_36: [u64; 128] = [
    8855720291218047804, 8854487145427983099, 8847090609301966564, 8811397109457212938, 8807710006021475611, 8799110642538204232,
    8792971561689136443, 8791744077488636310, 8788062288556531754, 8770893758981291411, 8751299068197559337, 8748851715430195414,
    8730510599190863705, 8725623812259052702, 8721959875200019248, 8719517799386090611, 8715855508707353022, 8708533888837432250,
    8701216214957425877, 8699996986058017933, 8697558856766887631, 8693902483878154078, 8690247095893114543, 8681721685207693065,
    8671984915604456655, 8667119151325305511, 8648888075799137331, 8646459117940773897, 8645244802310195481, 8639174856557944961,
    8634320857959299322, 8630681500564849234, 8628255805680141218, 8624618078128439622, 8608865881186699189, 8606444093198703016,
    8599181329870599500, 8597971248422596988, 8591922465053374168, 8581041470671703827, 8573792338409738850, 8566547093689933887,
    8555686508913779887, 8554480316316338423, 8552068254374714296, 8544834653536628802, 8540014405979471638, 8532787261839761574,
    8526767598006220149, 8514736325376716470, 8512331358679654609, 8507522712195538008, 8497910563654862647, 8490705950012660883,
    8485905014325495830, 8482305435448427907, 8472711260736309453, 8467916736554472578, 8461925982484478137, 8454740596946875424,
    8446362495699145795, 8442773478162802634, 8440381331949082700, 8435598316155676525, 8428426982347829500, 8426037387926680512,
    8414095787081640304, 8410515376107816138, 8386670340749622573, 8381906413732564066, 8372383632540402346, 8368814332222377819,
    8347418465678049499, 8346230807490536474, 8342668464563082832, 8340294095500729005, 8336733330961320944, 8335546619806679907,
    8322499734324574615, 8311834460889026810, 8310649955077530891, 8304728998686039867, 8301177682482876526, 8279889570192669655,
    8271620008210336437, 8264535884191179172, 8262175344239527648, 8251558075417657914, 8246841998286499847, 8244484584463437030,
    8236236914098715864, 8230348840972116957, 8229171538166905824, 8223286582484698748, 8218580487126612549, 8216228062207811802,
    8215052005390401513, 8204472160822958133, 8195074900983115919, 8188031303906813026, 8179818479747910991, 8173955277018855993,
    8165751129905681059, 8162236614658576721, 8158723027560924731, 8134153875206021365, 8128310763832581437, 8124806129922098267,
    8121302420249729634, 8109630058369379358, 8103797722671736125, 8099133698289947181, 8092140733320263648, 8089810563659660025,
    8082822509156633175, 8072347325475066252, 8071183926786821955, 8065368464166918805, 8057231100355499460, 8046776112449620323,
    8040971349147729660, 8030529182704937854, 8025890862122212562, 8022413188012454268, 8020095246180747106, 8011985645811342537,
    8008511623921128182, 8002723614273233838,
];

/// Magic multipliers for 64-bit division by the odd primes, from index 4736 on.
const MAGIC_U64_37: [u64; 128] = [
    7985374771309342818, 7977286430861477973, 7973821514389081920, 7970357506489062433, 7968048672475017500, 7961124591281583506,
    7939222262249353915, 7936918867182815961, 7935767320451222989, 7933464528525575596, 7930011094283579419, 7925407921548605377,
    7918506174139644178, 7912757476878704162, 7909309461676638943, 7898970826254036649, 7895526416662164653, 7866857990035288180,
    7863421971571720549, 7861131791079018765, 7857697267804170935, 7850830910837862509, 7846255330684392896, 7840538094083380927,
    7822259633611653371, 7818835251786986823, 7806286819787140489, 7805146647765099851, 7799447272866275542, 7792611288750656635,
    7782363986749739238, 7781225891678450352, 7777812198978124358, 7775536897477338060, 7758484712942718445, 7753941208677678282,
    7750534614279465541, 7747128905612034732, 7736917090541367245, 7731247299682734708, 7730113636154016682, 7727846603637519524,
    7721047861497469634, 7709724469846760176, 7704066448141000521, 7699541792904397704, 7685977216678230203, 7680329462946867626,
    7679200205127549387, 7675813017295638097, 7663400839243282550, 7660017746633575227, 7658890243909683840, 7648747100219888553,
    7643115425494738147, 7636360623579045220, 7635235163299988086, 7618364906576107915, 7608253223961285573, 7601516459668940007,
    7585810882569204919, 7584689780312307834, 7581327052835309726, 7579085717137344570, 7575724437271122442, 7567884826349176940,
    7564526438901614654, 7557812264663594176, 7552219766687643479, 7547747499916551438, 7545511943461207446, 7538807580625490723,
    7524293319459564256, 7518715227706483409, 7514254479227703838, 7510909923555584294, 7501995320023500708, 7500881425091272035,
    7495313384598836074, 7485296931344807652, 7477511702556808574, 7474176606721614891, 7471953686182161497, 7468620020153750378,
    7460844800015437663, 7451964545040403926, 7450854941192210873, 7447526700052505803, 7445308347841264917, 7438655571166134630,
    7427575204047210037, 7425360268846768600, 7414291278604589927, 7412078617027099466, 7408760334499468953, 7402126323661125002,
    7401020986148676233, 7381141063441497901, 7378934070628940933, 7375624288522739533, 7374521216335711519, 7369007268719908221,
    7367904761776113322, 7355783397629085712, 7351378450663150092, 7348075727315245677, 7342573067204525111, 7335972973244513831,
    7329376256659292859, 7319487508690524573, 7311801504340630020, 7298636159581100997, 7278913356431728463, 7276723799019115634,
    7265781600294089083, 7252663243622757959, 7247201211504985264, 7243925106532052709, 7242833257186327487, 7227557105270404099,
    7224286007504836398, 7214477713444810948, 7210120877045540273, 7207943013586019013, 7204676911557039543, 7200323402256869131,
    7197059239924056231, 7194883593260333525,
];

/// Magic multipliers for 64-bit division by the odd primes, from index 4864 on.
const MAGIC_U64_38: [u64; 128] = [
    7193795908360676273, 7187271736273891796, 7172061571983918785, 7162293137183518792, 7154700614345109970, 7146028956216759850,
    7138446072840345206, 7128703251485167433, 7123293778500291543, 7118967847423723380, 7115724359560259450, 7113562491498160812,
    7110320374943370497, 7107079080756388791, 7102758633871849883, 7090884934394319922, 7084413021486519739, 7083334688240676980,
    7077944388056577530, 7068247581481963437, 7065016949664563114, 7063940254185723126, 7054254082989441670, 7048876054401235121,
    7047800720879730628, 7041350624159546120, 7035978036166487564, 7026313083302378149, 7009149034766352760, 7005933350435745450,
    7003790012196622459, 7000575681581861749, 6997362162786337398, 6993078733357411931, 6989867107611153977, 6986656292659690273,
    6981306735339712728, 6970614369084830041, 6967408412460625910, 6960998924853512942, 6955660154287951583, 6951390752959688804,
    6946056019017226403, 6938591155373647148, 6935393271492513822, 6930065255088894504, 6922609788893624988, 6920480460244099993,
    6919415929954586841, 6907711990857659112, 6898144071002689201, 6897081414532396660, 6891769468547562566, 6890707346545497841,
    6888583369646677290, 6877968824349169601, 6875846982502701473, 6874786194908448399, 6856766393976346928, 6855707204354643422,
    6849353928312359931, 6846178486589822293, 6840887854975142565, 6839829994240607867, 6834542017898996759, 6825029231778442504,
    6821859893738751683, 6814467862154150136, 6808135276488471629, 6801805864984902859, 6790210179982893006, 6785996207533360758,
    6782836651599402925, 6774415036186118898, 6771258379713114162, 6767050733361363660, 6764947436678744243, 6758639651550110514,
    6755486942459832251, 6751284556980761966, 6749183889747424577, 6730293634073716283, 6727148011637660652, 6724003175132380857,
    6713526059167910448, 6700965027337380648, 6697826728816066112, 6691552481043503524, 6682146978164924568, 6676924739329563385,
    6675880552017868320, 6670660917141026488, 6657100011566299760, 6653972651050724420, 6645636831137563823, 6641470997048727064,
    6638347529108890372, 6636265649190819252, 6623781622867233908, 6614426755176394915, 6610271276770875659, 6604040642397893104,
    6597813105852280016, 6592625856793734868, 6583294221382048101, 6577076994259009886, 6576041090006822336, 6563616925413877118,
    6561547430699318178, 6555341000942055828, 6546037130206620775, 6539838395641856414, 6532610423772300043, 6527450146436897756,
    6526418346803765633, 6524355003286899228, 6511982098733604953, 6505800243296561508, 6498591947886907017, 6493445714721723006,
    6490358993899705479, 6489330256742154717, 6486244554471799565, 6484187843855134093, 6481103414065551478, 6467746366177289155,
    6465692706116713653, 6462612850746574622,
];

/// Magic multipliers for 64-bit division by the odd primes, from index 4992 on.
const MAGIC_U64_39: [u64; 128] = [
    6459533756790235663, 6458507561292388491, 6447224989458481140, 6443124770140259480, 6433904213240769953, 6431856128266641966,
    6422643916963941518, 6418551790348310017, 6416506232002337299, 6404239946160721468, 6403218301974001483, 6397090200444887765,
    6390965120600007580, 6388924098417514036, 6387903713110826262, 6361403093691675010, 6360384968512950071, 6351225601058743901,
    6348173981433898037, 6346139985572029458, 6343089617405939899, 6336991132314130188, 6335975009839969196, 6332927142283011459,
    6326833655642057530, 6321758038905522955, 6317699042717700668, 6315670043466032144, 6314655668514997771, 6302489648210508464,
    6297424000765532297, 6296411120105900496, 6291347960394464728, 6290335577098272548, 6284263016989242949, 6281227854835298447,
    6272126836684240167, 6251926317011619748, 6248899086354778961, 6238813674736105679, 6230751274524320778, 6229743844778112950,
    6223700993217558453, 6220680677144968467, 6215648460096302741, 6209612509159024891, 6208606804568937865, 6206595641497927935,
    6203579512013776376, 6196544745717424651, 6190518141021320722, 6184494483260134713, 6173458757372646513, 6170450729984866408,
    6166441169986707820, 6164436879744758653, 6163434857028171543, 6155421611685535275, 6146412945934225969, 6140410833134784749,
    6139410765822472844, 6136411051951411329, 6128415392365482936, 6125418360783612366, 6124419512693756746, 6121423455597847224,
    6119426490079625087, 6113437540873654908, 6098477935399115363, 6094491784568379704, 6086523365757728753, 6085527677231603333,
    6076570116091636585, 6071596519200768921, 6059668113649901359, 6058674603740211722, 6055694557284776902, 6043781615868253111,
    6041797251763520978, 6040805190294766372, 6029897816809554592, 6028906719209063871, 6020980826908335302, 6019990451287497113,
    6017019805413607919, 6011080677238862771, 6009101608620656438, 6000199761898002826, 5996245465396155631, 5994268796812438048,
    5987352973698924539, 5985377743040901583, 5976493155620923237, 5964657085643257679, 5961699860442746527, 5960714277921329544,
    5957758007858350654, 5952832482179385650, 5951847615620791574, 5946924475184275433, 5928234647072535501, 5925286239268074228,
    5920373811010767146, 5913499737414013676, 5910554892998670227, 5907610760485923207, 5895841344300419081, 5893880880779931838,
    5892900767431384878, 5887021744503229422, 5879187463699732138, 5872336604905426452, 5864511775519824271, 5858646457154140351,
    5857669179233275724, 5854737816949768036, 5849853784172337861, 5837164481713568219, 5835213457666694688, 5834238063200793535,
    5828387341616027684, 5825463038034363391, 5823513893699839377, 5817668338522332749, 5813772865838704986, 5807932001459061323,
    5803066762441315428, 5794314249055766399,
];

/// Magic multipliers for 64-bit division by the odd primes, from index 5120 on.
const MAGIC_U64_40: [u64; 128] = [
    5791398148449543252, 5784596641341843921, 5771005072199404387, 5770034829249707508, 5767124566798173157, 5762275683477087043,
    5761306139843566683, 5759367285532567895, 5752583740503254892, 5736125235058610148, 5735157784843229268, 5732255898582477719,
    5721621604997974718, 5720655314864287912, 5715825022979217291, 5709065857247931844, 5707135361559057897, 5706170229421712738,
    5698451948072971996, 5694594656937834903, 5689774775784911513, 5686883770792258512, 5683030174601443668, 5678214909639995883,
    5674364081174408055, 5672439127907055026, 5669552274005925947, 5668590142935422048, 5660895857186198374, 5658011765714394603,
    5655128364230382887, 5646482297229906198, 5632085962234224645, 5625373558648011450, 5622497959751120428, 5620581275469823167,
    5606215867688931795, 5605258783553826510, 5600474505142499679, 5593779712052756232, 5591867598649899871, 5582311592340202409,
    5577536437699783944, 5573717680242030469, 5571808756732289219, 5567991819789369238, 5559408145648044340, 5557501495748764504,
    5550830605501778450, 5547972787426727977, 5546067953492488091, 5534645297948006749, 5531791333288666738, 5528938047834766944,
    5520382264281946862, 5511832584857387379, 5510882996991171214, 5493803277907953874, 5490959025405930132, 5486220106098204303,
    5479588770406053402, 5473907692542831192, 5472014599393136684, 5469175521428416983, 5468229311873902217, 5454045147828756736,
    5451210333838418707, 5449320831404582810, 5448376192229000649, 5445542722761310945, 5432328745431009245, 5422899135456424152,
    5421014107069291343, 5411593429292741110, 5405944591417397750, 5394654936577571951, 5387134435342144355, 5378679540618687377,
    5373046275917646278, 5366477499647731161, 5363663418749613191, 5361787734286769055, 5356162453582365428, 5341174692442810099,
    5335559146927223210, 5332752368286340804, 5328075875839685827, 5324336006016526893, 5319662822994189016, 5316859795034756263,
    5308454676848094623, 5307521141833434153, 5300055502291335746, 5293526916110945502, 5290730049376100463, 5280480507056854828,
    5277686713319299665, 5272101099133336703, 5271170419132048014, 5262797584582024503, 5260937757416861318, 5257218978282157855,
    5243283940921342835, 5237714512475217593, 5235858618214149576, 5230292680136571002, 5229365278136851211, 5224729357682611740,
    5207129404829045788, 5196951915311378441, 5196027123259708446, 5194177756171535947, 5187707249131236926, 5184935258828110380,
    5179393228458346422, 5168316962264686556, 5166471927513746131, 5165549518247892372, 5163704915893189917, 5157251076623915294,
    5151722021951678834, 5147116454689308134, 5146195556950060311, 5138830962180749703, 5136070424361750780, 5126873296854361859,
    5125034732120954647, 5115846208603372054,
];

/// Magic multipliers for 64-bit division by the odd primes, from index 5248 on.
const MAGIC_U64_41: [u64; 128] = [
    5105747103103345084, 5100242148113731427, 5099324905793577822, 5097490635516482519, 5096573607542842291, 5091072939483905963,
    5080995054302226107, 5070010835439575443, 5067266383074319676, 5064522571200485038, 5063608109535215595, 5060865151301224333,
    5059036868030433504, 5056294976286155263, 5055381154514736856, 5050813111359724264, 5045333803024852588, 5039857049493470837,
    5037119630220772880, 5036207298925579301, 5033470730311447369, 5026176331211116592, 5022530830963803099, 5019797448790383837,
    5017975547699760601, 5009780492437039795, 5004320301659096417, 4998862652327125356, 4992498604511926460, 4990680939660277870,
    4985229636185767027, 4982504935275684042, 4978872986275124392, 4976149763397944068, 4967983892330795748, 4965263200427775780,
    4960730118685537639, 4955292737197147599, 4948952317338561997, 4946236046157883410, 4944425549079937669, 4940805395533240644,
    4930855748668364473, 4928143677689918109, 4927239793861245057, 4914592756270335430, 4906469742324392301, 4905567533905607547,
    4897450794010709738, 4892943931669701521, 4890240649465345103, 4883935425578889913, 4879433779815236134, 4878533659116263560,
    4874034097447862199, 4867737626763500565, 4865040180029031363, 4860545822271268811, 4859647158667483235, 4849766430879298031,
    4847073140776838772, 4843483055861203287, 4840791218310350426, 4833616025938605959, 4828237532625119929, 4824653250870886405,
    4814802165820747488, 4813907026181337398, 4812116953564611470, 4805853868523318972, 4797806285163512176, 4792444323565186946,
    4789764270316226821, 4779050235998795481, 4776373271020824217, 4771913033760231063, 4771021191892422202, 4765671579112574970,
    4755870355682789991, 4747857327158220966, 4745187547420173377, 4736292718716267218, 4733625600415219245, 4729181766725798627,
    4722963261220190890, 4721187158245167050, 4720299208865792361, 4717635769066304881, 4712310726287175932, 4702554503825809714,
    4696350277318056683, 4691035015165434981, 4689263803630106867, 4686607494721324879, 4683066698185318469, 4673335094272799829,
    4672450809054770633, 4668030397421577325, 4662728134243140348, 4659194643337698527, 4641543384792562070, 4640661529762922741,
    4638016368816163497, 4633609113915816847, 4630084521450109650, 4628322628865874979, 4609838986855916214, 4601047656308353456,
    4599290194636506579, 4585240144214759663, 4579975790952629575, 4575590667861341620, 4572960395598085430, 4567701653691106587,
    4562445313904486463, 4561569490697299434, 4557191374592717992, 4553690081170096312, 4551064810469290143, 4549314962919562815,
    4545816066548520518, 4544067017605686669, 4532704682484810085, 4524845027220183591, 4523099167244053194, 4519608243291705527,
    4507398361109769301, 4504783646652477787,
];

/// Magic multipliers for 64-bit division by the odd primes, from index 5376 on.
const MAGIC_U64_42: [u64; 128] = [
    4496943076176181711, 4494330742971268445, 4489107860772779195, 4488237611605262649, 4483887356169038978, 4481277994957908599,
    4478669227536900790, 4472584411600118597, 4468240091702226437, 4463029081260775181, 4456952563742453286, 4446543172576531190,
    4443942303027789091, 4442208718282215708, 4433544731760652497, 4424021919113414667, 4423156601923319021, 4415371692750275059,
    4413642432627629987, 4411049032884053382, 4405863998248051732, 4405000054499230017, 4398090855420423908, 4390322998746937696,
    4384284983619472854, 4381698240141859429, 4379112082751169543, 4377388303329532620, 4374803122307837898, 4371357125109443396,
    4363607435085504418, 4361885996562492886, 4355863007314066747, 4342967307040145346, 4341248982305022562, 4333519726524656203,
    4330086184493232542, 4325795712200919398, 4324937811702288402, 4323222204606406697, 4319791765815677188, 4314648045256222766,
    4312933988203379738, 4307793365629212049, 4300086784375178938, 4299230819790404634, 4294096384796292419, 4289819459318399236,
    4288964267264799553, 4282125046120284905, 4278706978316486971, 4276998329903710818, 4264191651988428409, 4263338386693378422,
    4260778975457960447, 4248842680089783333, 4247990567725977017, 4243730965510951298, 4242879236938318633, 4235216556220262728,
    4230961747345601824, 4225007695970120847, 4223307112643124791, 4212259536483486727, 4209711624759857007, 4202071326455859979,
    4200374182123594536, 4191892274198337276, 4189348940588745887, 4187653702303426511, 4184263987366641775, 4176640839639423340,
    4174947504191856942, 4169869018439236567, 4158873451199836644, 4148733182044876635, 4147044021579460564, 4138602006112391978,
    4129323072542090333, 4128479911176429500, 4120894292036106782, 4111629899805202256, 4110788059491224133, 4109104567345529354,
    4104055598260251490, 4103214323161037904, 4100690874434305271, 4098167990416461004, 4095645670917966606, 4093964438113937183,
    4091443059060059576, 4085562034329685234, 4083882305227570749, 4073809187493279455, 4068776005530371181, 4066260258114675553,
    4058716387869262814, 4057878492135478536, 4052852427651472276, 4041133669824166919, 4035278867443614001, 4033606626675913820,
    4031098731909866690, 4027755742516753430, 4018567646778605051, 4016063106182850226, 4011055699926999344, 4003548775082982595,
    4000213974726662335, 3998546946038116915, 3990215515285254990, 3987717292011850109, 3986052118876022501, 3983554822604328094,
    3982722514068128392, 3975234515874979696, 3972739627394414683, 3971076676835243658, 3966089305007687761, 3961104151803027849,
    3957781948170564300, 3946161989132043115, 3943673565885010174, 3940356528402060664, 3936211613365843669, 3935382814532708113,
    3925442013871720008, 3920474924137386805,
];

/// Magic multipliers for 64-bit division by the odd primes, from index 5504 on.
const MAGIC_U64_43: [u64; 128] = [
    3916337367209244047, 3906413473294667357, 3903107465633946835, 3898976330989606897, 3890718641588191861, 3885766956801027416,
    3883291937569363302, 3878343544517797366, 3873397344133425596, 3871749097679470754, 3865982151620899552, 3861041426532715369,
    3851166537623225460, 3837192067829390979, 3829800908041156426, 3826517521710776971, 3822414649642801152, 3819953651865184993,
    3812573921072889781, 3809295610648208555, 3807656817526741938, 3804379955198975279, 3797829124712241210, 3792100311320693868,
    3789646008778523406, 3788010108016537195, 3785556708139928398, 3775748520445503893, 3774931562094157274, 3772481047403300573,
    3770847671179154663, 3768398057065162633, 3767581639059952339, 3761052454655883194, 3758604999901916796, 3756158084541824437,
    3748005593341967133, 3738230503110024747, 3736602158461561927, 3735788075772625575, 3734160089632451113, 3728464019447246717,
    3726837108121837660, 3719518960351013754, 3718706130992033884, 3716268000549879237, 3711393348432151398, 3709768940872292761,
    3704085389519082694, 3702462053232592623, 3701650474311428813, 3694348939506857877, 3687862726638859588, 3685431376460325079,
    3683000560360798834, 3682190406981432893, 3675711314777083968, 3667617782888197936, 3665190877996577090, 3662764505720013203,
    3650640627429733963, 3649025114867736684, 3645794798288934792, 3643372680627963226, 3633689518638152987, 3627238792151809692,
    3624820741338540961, 3622403220228438759, 3619180682430211005, 3614348639928090946, 3602277787251421131, 3600669338188925118,
    3593434220480694227, 3586203849792410781, 3582991874221807145, 3581386237593616598, 3570955301864221760, 3566946033445412689,
    3566144354969579008, 3557329743924440753, 3554126180792426122, 3550123038403645035, 3544521085816564382, 3542121122358568480,
    3540521437714509907, 3533325736196253274, 3530129158209392097, 3525336034151613662, 3514160204563063231, 3513362366039575098,
    3510969198256395943, 3509374042827183546, 3504589966829899199, 3502198710557213843, 3492638893000594378, 3490250239644513505,
    3487066177476637305, 3483087399336853498, 3475134171972519480, 3468775742374221470, 3465597910568949313, 3453689244792453325,
    3451309064744433834, 3448929402005029637, 3447343247489158468, 3446550256405611185, 3442586162482108105, 3437038842037767949,
    3434662279611398532, 3430702489106083389, 3418040784850235234, 3409344361461731351, 3402234249737145077, 3401444522871677935,
    3399865240395462655, 3399075684772335927, 3397496744725104524, 3394339549253523572, 3385661965598941237, 3382508189966242876,
    3375415525103227942, 3370689641881742075, 3359670537207477456, 3358883884202989188, 3352592702795293124, 3347876698516902344,
    3340806516782440648, 3335310657099427947,
];

/// Magic multipliers for 64-bit division by the odd primes, from index 5632 on.
const MAGIC_U64_44: [u64; 128] = [
    3331386740266582389, 3324327251447198456, 3319623467649609629, 3317272337881158499, 3304741552419547050, 3300828640579771357,
    3295352928513874723, 3293007038783555160, 3289098347308970377, 3288316777670847419, 3284409772430715047, 3283628539930359493,
    3281285179415579582, 3272697179854508942, 3271916789244819775, 3270356176252349955, 3268015677240265616, 3264895796526779893,
    3260997206113564771, 3258658723831234687, 3253204224016735378, 3250867420352030571, 3249309830826066459, 3244638403720860792,
    3232968632110242418, 3223641851588979847, 3221311410215477953, 3218981470021145614, 3215875662428014903, 3213546891023201949,
    3211994654896951326, 3211218620258974777, 3209666717803430036, 3207339281081492012, 3204236810195908468, 3201910540380471748,
    3199584770399191150, 3191061220891031419, 3184092398845498121, 3180996585263723779, 3179449010754575586, 3178675306549632591,
    3171714459124789235, 3169395172354588687, 3167849257620644067, 3167076383169735652, 3160895376765509149, 3153945968898220370,
    3146229645450774437, 3142373550710134702, 3140060554875152324, 3137748054602490640, 3126192981102796476, 3125423082740711133,
    3120804846323794944, 3110036647294517048, 3107730574865504542, 3105424995775574420, 3103119909866433245, 3102351657465100792,
    3097743293115055422, 3093904494874258493, 3090834441097403092, 3083930018698668917, 3077030021660134761, 3075497289531785991,
    3072432480067289815, 3065539849180089730, 3061712517366812088, 3060947214422761265, 3050238688788966704, 3049474202124463476,
    3045652584268886663, 3040304601523357662, 3038777095263899514, 3038013423573662494, 3026564859213398609, 3021988849069819639,
    3013604560565725304, 3003704295044847410, 2999898932457475912, 2996855614365890049, 2994573692543204973, 2990771568562169604,
    2987730840115188632, 2981651970295432249, 2976335786910128608, 2974058230003069089, 2971781157313412697, 2967987111783321654,
    2962677705641736300, 2960403051724357947, 2958886884284484447, 2958128881098946671, 2954339670287141098, 2949794387815539528,
    2949037028437753390, 2946765271963335442, 2942980083027637201, 2939952896139001725, 2938439623989572311, 2937683068218688080,
    2933901092175335545, 2924074212182530173, 2915766212636849309, 2913501515537743731, 2912746723206103691, 2908219089185100920,
    2901431236019194693, 2899923410171386613, 2890127731557558194, 2888621501968212970, 2885609680673275134, 2881846099622414558,
    2879588588358103662, 2874322920075904985, 2870563320175747087, 2869811559295741257, 2863048096614066419, 2860794562711640459,
    2857039731859538816, 2849534038831699018, 2847283362124897413, 2845033161089038967, 2843533291252306242, 2834538507919986552,
    2833789285698802249, 2832290999506599172,
];

/// Magic multipliers for 64-bit division by the odd primes, from index 5760 on.
const MAGIC_U64_45: [u64; 128] = [
    2829295059966891508, 2827048658875824609, 2821060574437611179, 2815823765160405904, 2809841997266644026, 2803116530158005199,
    2802369518729398250, 2800875653422444355, 2796395317505004513, 2795648778544479674, 2791916870662985316, 2791170646432204348,
    2788932288331397193, 2784456987294455597, 2780729010426445552, 2778492852649441567, 2776257165948281973, 2768808277248263429,
    2766574630156618605, 2765085793372882626, 2762852930003306061, 2748722371135534464, 2747236039097537578, 2745006931858299011,
    2740550123781276732, 2735352883076129437, 2733868425451742333, 2729416300699339322, 2726449257194509451, 2722741621820403989,
    2718294173014466219, 2713848592524702550, 2710885909570330334, 2709404879174076733, 2707183722308387013, 2702002836260694430,
    2698303756815856789, 2696084930201485211, 2691648673656802788, 2690909478554347370, 2687214278380883759, 2680566172784378492,
    2679827752560115733, 2673184292577361169, 2669495286557154201, 2666545009484866287, 2662858322257361980, 2662121139306270960,
    2657699122607491394, 2656225528724319502, 2651069570286699317, 2640765208061091073, 2640029567333325270, 2634146288726655592,
    2633411109722228794, 2626796805447963588, 2624592959644624996, 2620920907463080953, 2618718290413001046, 2615782184015227985,
    2609912425944345145, 2604779070710828601, 2593787447508562360, 2590126123353618112, 2582807296419854593, 2580612641275388720,
    2576955900459260007, 2568184909457120985, 2567454323874782802, 2557231456888449926, 2556501632689607069, 2552123752359635557,
    2546289416741924841, 2544102376633878571, 2541187031907176822, 2528077995701229215, 2526622446903018859, 2523711955269774560,
    2522257012350656434, 2517166301628669112, 2512804802218068050, 2509171605442958823, 2506265954795035706, 2501908989324449575,
    2500457070133762277, 2498279568672145481, 2495376937509274492, 2493925923599159037, 2491749779705575161, 2486673869090212453,
    2478702408464286937, 2475805200526428632, 2473632821000836096, 2472184818585601171, 2471460892542921430, 2467842013770841698,
    2465671287473467892, 2458438786354242929, 2454824411475689739, 2451933811308326143, 2449766385810770143, 2447599409838888121,
    2439657674958045259, 2433164380920565912, 2432443153015879287, 2426675122979316501, 2424512933258823205, 2417308868226992483,
    2415868651964412088, 2406512090619173389, 2405073364492307306, 2400039386045051249, 2392133757373639647, 2387106023911024577,
    2385669974206720286, 2381363012668291961, 2379210199656555892, 2376340474486689573, 2374905908457982094, 2372754429995292353,
    2370603396106527711, 2361287383193823222, 2357706521114471767, 2356990496589172803, 2350548493075171581, 2344110477937638690,
    2342680349165879154, 2341965358557557127,
];

/// Magic multipliers for 64-bit division by the odd primes, from index 5888 on.
const MAGIC_U64_46: [u64; 128] = [
    2336247203682687803, 2335532655496224024, 2329103932178660499, 2327675867084515965, 2325534137507637249, 2322679184912764853,
    2321252002884720510, 2319111597565663093, 2314832110230223663, 2314119033821302650, 2311980098459845412, 2309841603790391291,
    2299867784927320494, 2286347209190672616, 2284925015766708819, 2282081214173529517, 2276395950882545590, 2267164046411572636,
    2265744483431113053, 2265034774902368662, 2261486961673534335, 2257231189852113276, 2256522064605472012, 2252977166888177520,
    2250142122634102400, 2248016349020632658, 2244474363222503337, 2240225580367848318, 2239517619530282999, 2235978542064843599,
    2235270871881421897, 2226782605405812967, 2225368571673208165, 2214769481256679943, 2205592390657074189, 2203475758117125779,
    2201359559394842562, 2195013564800687507, 2192899100016041656, 2190785068382822353, 2183037322761996220, 2182333270703348316,
    2178813731122638764, 2172481585321151847, 2163342013451898420, 2161936644563733441, 2155614855628528016, 2152806416426750712,
    2150700589446688050, 2148595192966697975, 2144385690978993541, 2138775697684001175, 2136672738212692688, 2133869460527679189,
    2128265195222306286, 2126164382540625787, 2123363966218800373, 2117765420134821710, 2117065816144488676, 2102385120331501141,
    2082146204859097448, 2079357758550651361, 2077963819443861310, 2075873265734473283, 2075176509132275180, 2073783137850361726,
    2070996962841579131, 2065426881965646897, 2063338881257606057, 2056381947941808979, 2054991127583191354, 2050819798425092490,
    2046650166337729744, 2044565986371963965, 2040398897949503354, 2039704547981813972, 2036233504010737344, 2035539436356510338,
    2033457515587728953, 2025827425750731440, 2025134063127343626, 2021667954372821016, 2019588852438329248, 2016817373463276638,
    2014739256768406083, 2011276666727203579, 2006431009015492368, 2004355001191556004, 2002279414756578981, 2000895924508217691,
    1994672534305686116, 1991907798927841658, 1988452931220030945, 1985689877895721167, 1980166012204125871, 1975335079197338509,
    1971885811517350182, 1971196097795273237, 1967748227994786092, 1967058793763628079, 1962923166082948759, 1960855980555867698,
    1959478089493344502, 1952591424234008020, 1949149834387375733, 1946397398509695271, 1928524657260215204, 1925777784948529217,
    1922345235899876612, 1920286261627968386, 1919600029368821920, 1916169561598928815, 1913426019333700396, 1909997630950208512,
    1907941152068388120, 1905885088643841113, 1903144316793742183, 1899719389855239180, 1899034542804175891, 1891504266907685219,
    1890819972765713339, 1889451522613714062, 1887399192645874935, 1882612033284733866, 1881244687445114940, 1880561083498411237,
    1872361420931004626, 1868264069842334229,
];

/// Magic multipliers for 64-bit division by the odd primes, from index 6016 on.
const MAGIC_U64_47: [u64; 128] = [
    1866898653335449892, 1858027918003933238, 1851891176800534096, 1850527960249400966, 1848483478704187111, 1843714623100323591,
    1833503189624886235, 1831462136174024792, 1830101662098790658, 1828061293232088492, 1827381261523794151, 1819903922378178258,
    1817186257248546487, 1815827697985287308, 1813790200614287810, 1813111125878676748, 1805644307082654752, 1803608857070347122,
    1800895560079270042, 1795471146802297667, 1793437741064329995, 1788694716016929725, 1787339974269914713, 1785308201734847406,
    1779215331597857909, 1776508567094563119, 1772449778452632906, 1770420995016792092, 1766364649302523067, 1758256839074851217,
    1748131218451368731, 1742735036072328087, 1740038026155680817, 1728583768192772690, 1725890537490855111, 1718487859279542390,
    1716469889874836775, 1711762864887923409, 1708402049473275858, 1702355404858910771, 1697654966742170090, 1696312387203675882,
    1692285722132944090, 1689602173015454209, 1688260666628370383, 1676195147866578596, 1674185633772251469, 1672176520985470347,
    1671506905881887613, 1668159498853786344, 1667490151114985840, 1666151589268623551, 1659461451505895267, 1657455277971375242,
    1655449504744183477, 1652107438612002770, 1648098425827177739, 1646094519117565819, 1645426639026727444, 1632078355074005240,
    1629410826312521465, 1627410644830361287, 1618081731914075788, 1616083807111418142, 1615417920592198741, 1611423529526319279,
    1605434924360231839, 1604104608801339777, 1596126420755179301, 1591475409054353752, 1589482779044631965, 1587490545295621722,
    1584171035972306365, 1577535316326212297, 1574219104910741757, 1569578253800575952, 1564277057746081687, 1559640814082812306,
    1554344879761142670, 1552359627172666034, 1549713236686749470, 1537813141416647692, 1536491782855718972, 1532528755367596820,
    1528567299444050848, 1526587160526891207, 1522628060197998471, 1506148689244601361, 1502197686568813011, 1500222771945722110,
    1498906379419899717, 1496932116379518690, 1494958244133992497, 1492327022175872915, 1490354061333890090, 1487066660780681615,
    1486409310758933845, 1483123210858759348, 1482466120890424888, 1476554260386744874, 1473271408744091956, 1468677233550866728,
    1463429341772079747, 1460806432895898591, 1458839704707934343, 1457528768456330379, 1450976676403672782, 1449666775595581195,
    1449011889864155652, 1445738107762963724, 1443774355593812617, 1439193774638599894, 1433307555348171078, 1430038938977335721,
    1417627993110954385, 1414364530253535912, 1408492998483678051, 1407840820353894569, 1404580572255557413, 1403928651116463962,
    1400018023291567599, 1398714823061943611, 1398063287124164872, 1396760343581605660, 1392201388236871325, 1390248191433765496,
    1386993717943511806, 1384390907911963365,
];

/// Magic multipliers for 64-bit division by the odd primes, from index 6144 on.
const MAGIC_U64_48: [u64; 128] = [
    1371387098150404364, 1369437997440138989, 1362943763061536177, 1361645426947969557, 1357751439529135453, 1355156298350351985,
    1353210388753870674, 1342190787638751321, 1339599722664025279, 1332477791355306203, 1329889269133111845, 1326007755907712981,
    1322774325247606480, 1322127766014242388, 1316956814234164559, 1303395927509660204, 1299524805872128059, 1296944901068406848,
    1289853637661796314, 1287276259204197339, 1280191938147393617, 1277617082326883990, 1275686381526906526, 1264752879130434276,
    1264110109432136786, 1262182051832585927, 1260896889638005151, 1256400141532868560, 1254473591897233820, 1249337967617761875,
    1248696202835782848, 1241639549478715647, 1239715885166658300, 1237151584082740009, 1229462687486216271, 1222419807237183407,
    1220499896659726796, 1219860009754670127, 1216021562557858477, 1214742413102769277, 1212824000943322284, 1208349161444645057,
    1207071010009282003, 1204515205775309561, 1196851779833973638, 1195575123239595779, 1193660449459573768, 1191746148916371072,
    1191108131657956624, 1184092676929897172, 1177719339024068090, 1175808144547994761, 1174534221692866295, 1170076794004748524,
    1168803615190988287, 1166894156811550559, 1164985070145049470, 1162440199288926507, 1160531979530618596, 1157352438438423391,
    1155445208709483857, 1152902812927000560, 1150996448841863994, 1145914623835611095, 1141470188400226480, 1139566047552039278,
    1137662276865205382, 1130684949539127349, 1128782904845578567, 1121178420497877444, 1111048293828493370, 1109150062634115780,
    1103457579259207779, 1101560821179589835, 1095872754576916025, 1092714147664422859, 1090187997180882534, 1080720747473623282,
    1075044800523483647, 1073153551379321436, 1068112011370581635, 1064332565057239991, 1062443390822040598, 1058666139663190357,
    1058036740001572353, 1056148784706393255, 1054890350878359125, 1051116023618467589, 1048600616984505483, 1046714487888545273,
    1039801802507492094, 1037289314119500147, 1035405372967146928, 1034149614587162288, 1029755734810194719, 1026618462567717995,
    1020973918764226943, 1014706040017797098, 1011573613918273952, 1010947249697912850, 1009068398965813702, 1007816033379635470,
    1007189911045435667, 998428428174432472, 992800212492657372, 992175056303298712, 989049878391365970, 987175253932501123,
    985300991061945896, 983427089675092540, 979056058288410474, 966578226719674128, 959099219139689515, 958476228616796716,
    957230367563407547, 954739125318375632, 951003461143218224, 949758559412998398, 943536446838817588, 942292503324163557,
    932346698049247652, 926756665295098546, 921790453977283297, 919928781081617901, 908766254900083100, 906287440764157298,
    904428746782967948, 903189815795853169,
];

/// Magic multipliers for 64-bit division by the odd primes, from index 6272 on.
const MAGIC_U64_49: [u64; 128] = [
    901331716739517327, 896997539721959892, 895759560066374765, 893902887664841248, 885861424421501983, 884006651671877168,
    880916154505594505, 876591118251018925, 871033200776780893, 867946850139391119, 866095513085808780, 864244530904111862,
    859926951964453442, 856844148856261448, 854994939504395899, 853146084412850956, 848833466306555749, 846985791347809254,
    839598628691883777, 838367984845319007, 834061967894715856, 827299253532914062, 824841260728432391, 821155446788817521,
    818085011985621121, 815629368629308102, 811947077177440797, 806426278962474227, 803360536322600336, 797844659231583626,
    795394172818679475, 788046456506820037, 784986563961328178, 782539350786291721, 781315977737479299, 773979007115116885,
    772145639255317702, 766647633584184573, 764815663996507385, 764205085098457009, 761152772675506531, 752001652197310090,
    751391887520684123, 748343645041010851, 747734112699942608, 746515164143166798, 745905747920084904, 733725545269476684,
    733116940944018449, 724600533953576165, 722168663770099782, 720345165975086418, 718522015077987418, 713054642784563393,
    711232878489696831, 708197374401442549, 703949284356397577, 702735890406796529, 697277519896509838, 688187147339043245,
    682737066449461862, 682131693543556420, 678500260577663817, 669427707486652978, 667614229682374874, 658551999344309577,
    657344351167254609, 651911823139200730, 648291853927496839, 647688659135664607, 646482383871021923, 642261620415429432,
    640453292989679082, 637440175183516323, 635632761083262848, 633223408095173290, 631416792587246003, 628406526896806759,
    624795461771828036, 624193750502547495, 622388844482621117, 618780057165074616, 615773777638296422, 615172635497638033,
    609764061895189549, 608562573432436858, 602557402971808779, 601356823049853661, 599556236889115136, 595356192717105412,
    593556740783844109, 591757628909846717, 585163793210509068, 583366267005879220, 581569080314800685, 579173359359320053,
    573785192242228222, 568400076134404134, 565409662347019298, 564811692454866361, 561822407125511431, 561224662861086813,
    559431655606862847, 558236505351132460, 556444061767273364, 552860188727846029, 547486913055404701, 546890070026079340,
    543906417417063234, 541520170162928236, 540327271402495858, 534961081256442115, 534365025136897250, 532577081362573833,
    530789474390681885, 529002204126063050, 526024168331741793, 523642412624799205, 520666058782237686, 518880694729793484,
    513526618635756248, 509958913677417395, 507581189529174254, 504015721481600622, 502233490431409445, 501045522620231854,
    499263850166847869, 495107917181336853,
];

/// Magic multipliers for 64-bit division by the odd primes, from index 6400 on.
const MAGIC_U64_50: [u64; 128] = [
    490360511491174817, 489767253096563181, 486208483173119124, 485022523760250829, 483243863196468689, 471986769542184268,
    470210557467458332, 468434678885838598, 463700632364830507, 457786405494645084, 449512700047098035, 443607342991687110,
    440656048380675621, 438885714218356383, 437115711895177835, 432986996435985447, 431807695027728000, 424145825524470749,
    422967628330955583, 418845096475513766, 415901533546212450, 410605434388050511, 406488301797351909, 398259427633049041,
    397671925770272784, 396497031931752914, 392386056951170123, 387689995722407733, 387103152678601724, 378891188209086357,
    377132413135179629, 374787890834503042, 373029882338040500, 363074034218272360, 360733012347001453, 359562719915966402,
    354298205798219254, 353713441719420201, 349036638282692896, 346699109007335146, 344946343566639060, 333269590631541307,
    330935981192192295, 325687479802601907, 324521544578869339, 315781644705378230, 314034641270959794, 310541610215122551,
    309959564827509106, 301233216655803202, 299488921291598576, 296582483518144546, 292514984381518009, 280903279854638658,
    276842582238985171, 273943161910393175, 273363385598105281, 269885481718126772, 266988215490757586, 264671048249141054,
    263512679801803293, 261196373120877730, 259459519442369017, 257722988234488963, 249623437071741199, 249045166112745134,
    247888731502212881, 244420285891388020, 240375392301132302, 235754799934441874, 233445360513746354, 224790045471710446,
    220177156230833708, 214990379519468849, 214414248915661399, 211534129408519391, 206352154008415623, 204625468457305454,
    195421875104295548, 194272064551271703, 189099671795052517, 187376178685429267, 186801751821501186, 183355934221119428,
    180485392933938850, 175320647167682703, 174746963314357054, 173026123814270134, 170158764651154526, 166145945145110741,
    160989146974608133, 152973138079133627, 151256320343479394, 148967722980688109, 144392217594509385, 143820437733484179,
    142676983517228246, 136961821708479447, 134105558410534681, 131821179853927887, 126683381231055472, 123830276351573359,
    123259760557651265, 120407707320215624, 118126695415115144, 116986399619827785, 115276218550872692, 111856801539971338,
    110147565423933805, 104452384845072269, 103313768192969056, 102744512278958576, 101036954146493655, 99898756700665384,
    94209864217064870, 91366726508643755, 83978647586439658, 78867272423877361, 76028837786750876, 75461255231127339,
    70354577088144323, 68652976734281180, 64116904327612860, 60149663789172796, 59016478812823126, 51654157659003381,
    50522012778952672, 46560596780867297,
];

/// Magic multipliers for 64-bit division by the odd primes, from index 6528 on.
const MAGIC_U64_51: [u64; 13] = [
    43732052605879086, 40338941515765692, 36381885509326711, 34686522878728615, 32991471233495125, 31861609530733524,
    27908181354543235, 25085339626875947, 24520874794309020, 16058040168625735, 10984060626817603, 4786316171691607,
    4223091239536077,
];

/// The magic multiplier listed for 64-bit division by the `i`-th odd
/// prime; zero past the end of the table. Callers check it against its
/// definition before they use it.
pub fn magic_u64_at(i: usize) -> u64 {
    if i >= 6541 {
        return 0;
    }
    let j = i % 128;
    match i / 128 {
        0 => {
            let t: &[u64; 128] = &MAGIC_U64_0;
            t[j]
        },
        1 => {
            let t: &[u64; 128] = &MAGIC_U64_1;
            t[j]
        },
        2 => {
            let t: &[u64; 128] = &MAGIC_U64_2;
            t[j]
        },
        3 => {
            let t: &[u64; 128] = &MAGIC_U64_3;
            t[j]
        },
        4 => {
            let t: &[u64; 128] = &MAGIC_U64_4;
            t[j]
        },
        5 => {
            let t: &[u64; 128] = &MAGIC_U64_5;
            t[j]
        },
        6 => {
            let t: &[u64; 128] = &MAGIC_U64_6;
            t[j]
        },
        7 => {
            let t: &[u64; 128] = &MAGIC_U64_7;
            t[j]
        },
        8 => {
            let t: &[u64; 128] = &MAGIC_U64_8;
            t[j]
        },
        9 => {
            let t: &[u64; 128] = &MAGIC_U64_9;
            t[j]
        },
        10 => {
            let t: &[u64; 128] = &MAGIC_U64_10;
            t[j]
        },
        11 => {
            let t: &[u64; 128] = &MAGIC_U64_11;
            t[j]
        },
        12 => {
            let t: &[u64; 128] = &MAGIC_U64_12;
            t[j]
        },
        13 => {
            let t: &[u64; 128] = &MAGIC_U64_13;
            t[j]
        },
        14 => {
            let t: &[u64; 128] = &MAGIC_U64_14;
            t[j]
        },
        15 => {
            let t: &[u64; 128] = &MAGIC_U64_15;
            t[j]
        },
        16 => {
            let t: &[u64; 128] = &MAGIC_U64_16;
            t[j]
        },
        17 => {
            let t: &[u64; 128] = &MAGIC_U64_17;
            t[j]
        },
        18 => {
            let t: &[u64; 128] = &MAGIC_U64_18;
            t[j]
        },
        19 => {
            let t: &[u64; 128] = &MAGIC_U64_19;
            t[j]
        },
        20 => {
            let t: &[u64; 128] = &MAGIC_U64_20;
            t[j]
        },
        21 => {
            let t: &[u64; 128] = &MAGIC_U64_21;
            t[j]
        },
        22 => {
            let t: &[u64; 128] = &MAGIC_U64_22;
            t[j]
        },
        23 => {
            let t: &[u64; 128] = &MAGIC_U64_23;
            t[j]
        },
        24 => {
            let t: &[u64; 128] = &MAGIC_U64_24;
            t[j]
        },
        25 => {
            let t: &[u64; 128] = &MAGIC_U64_25;
            t[j]
        },
        26 => {
            let t: &[u64; 128] = &MAGIC_U64_26;
            t[j]
        },
        27 => {
            let t: &[u64; 128] = &MAGIC_U64_27;
            t[j]
        },
        28 => {
            let t: &[u64; 128] = &MAGIC_U64_28;
            t[j]
        },
        29 => {
            let t: &[u64; 128] = &MAGIC_U64_29;
            t[j]
        },
        30 => {
            let t: &[u64; 128] = &MAGIC_U64_30;
            t[j]
        },
        31 => {
            let t: &[u64; 128] = &MAGIC_U64_31;
            t[j]
        },
        32 => {
            let t: &[u64; 128] = &MAGIC_U64_32;
            t[j]
        },
        33 => {
            let t: &[u64; 128] = &MAGIC_U64_33;
            t[j]
        },
        34 => {
            let t: &[u64; 128] = &MAGIC_U64_34;
            t[j]
        },
        35 => {
            let t: &[u64; 128] = &MAGIC_U64_35;
            t[j]
        },
        36 => {
            let t: &[u64; 128] = &MAGIC_U64_36;
            t[j]
        },
        37 => {
            let t: &[u64; 128] = &MAGIC_U64_37;
            t[j]
        },
        38 => {
            let t: &[u64; 128] = &MAGIC_U64_38;
            t[j]
        },
        39 => {
            let t: &[u64; 128] = &MAGIC_U64_39;
            t[j]
        },
        40 => {
            let t: &[u64; 128] = &MAGIC_U64_40;
            t[j]
        },
        41 => {
            let t: &[u64; 128] = &MAGIC_U64_41;
            t[j]
        },
        42 => {
            let t: &[u64; 128] = &MAGIC_U64_42;
            t[j]
        },
        43 => {
            let t: &[u64; 128] = &MAGIC_U64_43;
            t[j]
        },
        44 => {
            let t: &[u64; 128] = &MAGIC_U64_44;
            t[j]
        },
        45 => {
            let t: &[u64; 128] = &MAGIC_U64_45;
            t[j]
        },
        46 => {
            let t: &[u64; 128] = &MAGIC_U64_46;
            t[j]
        },
        47 => {
            let t: &[u64; 128] = &MAGIC_U64_47;
            t[j]
        },
        48 => {
            let t: &[u64; 128] = &MAGIC_U64_48;
            t[j]
        },
        49 => {
            let t: &[u64; 128] = &MAGIC_U64_49;
            t[j]
        },
        50 => {
            let t: &[u64; 128] = &MAGIC_U64_50;
            t[j]
        },
        51 => if j < 13 {
            let t: &[u64; 13] = &MAGIC_U64_51;
            t[j]
        } else {
            0
        },
        _ => 0,
    }
}

/// The magic multiplier for 32-bit division by the `i`-th odd prime,
/// derived from the 64-bit one (the quotient of `2^(33 + l)` by the prime
/// is that of `2^(65 + l)` shifted right by 32 bits); zero where the table
/// is out of range. Callers check it against its definition before they
/// use it.
pub fn magic_u32_at(i: usize) -> u32 {
    let f: u128 = magic_u64_at(i) as u128 + 0xFFFF_FFFF_FFFF_FFFF;
    let q32: u128 = f / 0x1_0000_0000;
    if 0xFFFF_FFFF <= q32 && q32 - 0xFFFF_FFFF <= 0xFFFF_FFFF {
        (q32 - 0xFFFF_FFFF) as u32
    } else {
        0
    }
}

/// The magic multiplier for 16-bit division by the `i`-th odd prime,
/// derived from the 64-bit one as for 32 bits; zero where the table is out
/// of range. Callers check it against its definition before they use it.
pub fn magic_u16_at(i: usize) -> u16 {
    let f: u128 = magic_u64_at(i) as u128 + 0xFFFF_FFFF_FFFF_FFFF;
    let q16: u128 = f / 0x1_0000_0000_0000;
    if 0xFFFF <= q16 && q16 - 0xFFFF <= 0xFFFF {
        (q16 - 0xFFFF) as u16
    } else {
        0
    }
}

} // verus!
