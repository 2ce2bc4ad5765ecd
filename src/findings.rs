use vstd::prelude::*;

use crate::bignat::{BigNat, decimal, to_decimal};
use crate::kind::CunninghamKind;

verus! {

/// The published origins of first kind chains, in decimal.
pub open spec fn published_first_origins() -> Seq<Seq<char>> {
    seq![
        "18088387217903330459"@,
        "4611686018427395339"@,
        "4611686018430476039"@,
        "14961027376987860299"@,
        "18387163427137165079"@,
        "201753609400367309"@,
        "33376463607021642560387296949"@,
        "36857073504463708989820858829"@,
        "65850116006148786152439799199"@,
        "77162903328470141405988589789674379619"@,
        "134382569868724676622974714529481507019"@,
        "170141183460469231731687303717167733089"@,
        "595374401003766034096130243798882341754528442149"@,
        "365375409332725729550921208179070754913983243889"@,
        "1332079220031954145589251158141208020515543604929"@,
        "1315910738258594946877020432332324419730043990204002549999"@,
        "5286099634025858841161357417667683784807437672358608696939"@,
        "26492105385435541326705069945527933737713984117118578345330797608979"@,
        "11757970121934327541360733702827942876206847201076324344452911002529"@,
        "28948022309329048855892746252171976963317496166410141009864396001978284493479"@,
        "48485404941743174450917141906484355462490237658145525006839828940029456351669"@,
        "86234486510746340125137830122141702027347200257363118510992330588951381407989"@,
        "108693781201411804277652435771198207892449933958867996774894347899368414395719"@,
        "28948022309329048855892746252171976963317496166410141009864396001978300618419"@,
        "113910913923300788319699387848674650656041243163866388656000063249848353322899"@,
        "32513809984092380819192652088162513959582762326769189004986614263354006979172021253243731928068713186557336122560969"@,
        "12307039909855129437896451704872238558838052289096716166011015803484525435222231681762227344644768174830461668844219"@,
        "19701003098197239606139520050071806902539869635232723333974146702122860885748605305707133127442457820403314808603969"@,
        "4257288688009878954451695431375817659515008633535285807045060622927544588698238829010900595221975499571076126680139"@,
        "6649653491081530622612538954981514863756002949295969609441086304155754360299515994556752300718232934858988121957955252900133322489991133429597175723068529"@,
        "6703903964971298549787012499102923063739682910296196688861780721860882015036773488400937149083451713845015929093243025426876941405973284973216824935693999"@,
        "2114808150280136020594982449559271743100598184592768859100325004053601242007840417934409418223841139254332921492561624155776746447081613720745982050813711487912144580903765643976083914728571299"@,
        "1186387563771966323021035874369368132807321218190992295127185928992437744187507398449740416674504973717870497985077219660782409185450455176824057976730967985420790374164677914043888492047407062040237294767414832210954126767988140179"@,
        "203274743466338590506856676084692781871543449315690960832874378776482018697599795319503031064142081441580957059007386501168798841524204630787816838492320705090398088227343584066754152886572610125242424604166426067474385045647594683321692242457119953411978836810279307559"@,
        "153739637779647327330155094463476939112913405723627932550795546376536722298275674187199768137486929460478138431076223176750734095693166283451594721829574797878338183845296809008576378039501400850628591798770214582527154641716248943964626446190042367043984306973709604255015629102866732543697075866901827761489"@,
        "37313426856874901938110133384605074194791927500210707276948918975046371522830901596065044944558427864187196889881993164303255749681644627614963632713725183364319410825898054225147061624559894980555489070322738683900143562848200257354774040241218537613789091499134051387344396560066242901217378861764936185029"@,
        "89884656743115795386465259539451236680898848947115328636715040578866337902750481566354238661203768010560056939935696678829394884407208311246423715319737062188883946712432742638151109800623047059726541476042502884419075341171231440736956555270413618581675255342293149119973622969239858152417678164815053566739"@,
    ]
}

/// The published origins of first kind chains, in decimal.
pub fn get_known_first_chain() -> (r: Vec<String>)
    ensures
        texts(r@) == published_first_origins(),
{
    let mut v: Vec<String> = Vec::new();
    v.push("18088387217903330459".to_owned());
    v.push("4611686018427395339".to_owned());
    v.push("4611686018430476039".to_owned());
    v.push("14961027376987860299".to_owned());
    v.push("18387163427137165079".to_owned());
    v.push("201753609400367309".to_owned());
    v.push("33376463607021642560387296949".to_owned());
    v.push("36857073504463708989820858829".to_owned());
    v.push("65850116006148786152439799199".to_owned());
    v.push("77162903328470141405988589789674379619".to_owned());
    v.push("134382569868724676622974714529481507019".to_owned());
    v.push("170141183460469231731687303717167733089".to_owned());
    v.push("595374401003766034096130243798882341754528442149".to_owned());
    v.push("365375409332725729550921208179070754913983243889".to_owned());
    v.push("1332079220031954145589251158141208020515543604929".to_owned());
    v.push("1315910738258594946877020432332324419730043990204002549999".to_owned());
    v.push("5286099634025858841161357417667683784807437672358608696939".to_owned());
    v.push("26492105385435541326705069945527933737713984117118578345330797608979".to_owned());
    v.push("11757970121934327541360733702827942876206847201076324344452911002529".to_owned());
    v.push("28948022309329048855892746252171976963317496166410141009864396001978284493479".to_owned());
    v.push("48485404941743174450917141906484355462490237658145525006839828940029456351669".to_owned());
    v.push("86234486510746340125137830122141702027347200257363118510992330588951381407989".to_owned());
    v.push("108693781201411804277652435771198207892449933958867996774894347899368414395719".to_owned());
    v.push("28948022309329048855892746252171976963317496166410141009864396001978300618419".to_owned());
    v.push("113910913923300788319699387848674650656041243163866388656000063249848353322899".to_owned());
    v.push("32513809984092380819192652088162513959582762326769189004986614263354006979172021253243731928068713186557336122560969".to_owned());
    v.push("12307039909855129437896451704872238558838052289096716166011015803484525435222231681762227344644768174830461668844219".to_owned());
    v.push("19701003098197239606139520050071806902539869635232723333974146702122860885748605305707133127442457820403314808603969".to_owned());
    v.push("4257288688009878954451695431375817659515008633535285807045060622927544588698238829010900595221975499571076126680139".to_owned());
    v.push("6649653491081530622612538954981514863756002949295969609441086304155754360299515994556752300718232934858988121957955252900133322489991133429597175723068529".to_owned());
    v.push("6703903964971298549787012499102923063739682910296196688861780721860882015036773488400937149083451713845015929093243025426876941405973284973216824935693999".to_owned());
    v.push("2114808150280136020594982449559271743100598184592768859100325004053601242007840417934409418223841139254332921492561624155776746447081613720745982050813711487912144580903765643976083914728571299".to_owned());
    v.push("1186387563771966323021035874369368132807321218190992295127185928992437744187507398449740416674504973717870497985077219660782409185450455176824057976730967985420790374164677914043888492047407062040237294767414832210954126767988140179".to_owned());
    v.push("203274743466338590506856676084692781871543449315690960832874378776482018697599795319503031064142081441580957059007386501168798841524204630787816838492320705090398088227343584066754152886572610125242424604166426067474385045647594683321692242457119953411978836810279307559".to_owned());
    v.push("153739637779647327330155094463476939112913405723627932550795546376536722298275674187199768137486929460478138431076223176750734095693166283451594721829574797878338183845296809008576378039501400850628591798770214582527154641716248943964626446190042367043984306973709604255015629102866732543697075866901827761489".to_owned());
    v.push("37313426856874901938110133384605074194791927500210707276948918975046371522830901596065044944558427864187196889881993164303255749681644627614963632713725183364319410825898054225147061624559894980555489070322738683900143562848200257354774040241218537613789091499134051387344396560066242901217378861764936185029".to_owned());
    v.push("89884656743115795386465259539451236680898848947115328636715040578866337902750481566354238661203768010560056939935696678829394884407208311246423715319737062188883946712432742638151109800623047059726541476042502884419075341171231440736956555270413618581675255342293149119973622969239858152417678164815053566739".to_owned());
    v
}

/// The published origins of second kind chains, in decimal.
pub open spec fn published_second_origins() -> Seq<Seq<char>> {
    seq![
        "8200568588273131201"@,
        "7119585911130398911"@,
        "10778533281280055611"@,
        "3623684585367099991"@,
        "4611686018428091431"@,
        "861715730411462341"@,
        "1674986350879671961"@,
        "67900120189714574549279004031"@,
        "10101837493672093280040555361"@,
        "72715672387515028471963509301"@,
        "39614081257132168796774190841"@,
        "10649588144161723271997444271"@,
        "41918868722453945727647602591"@,
        "467163544356581123923693233169765411"@,
        "78611250347504386688211060697879905631"@,
        "39313361333713821365071953370171601071"@,
        "296998440399300067472060767080169347567163272451"@,
        "655996338119965871537721549051574508184037198531"@,
        "127047554482172410847857928619907738690147109078632566751"@,
        "22778114142211962207960213784135598105906811222236549595128806545751"@,
        "11477799997239866295941478166154077568792584042185282664607488558757512965001"@,
        "9243036475383693019184249558391683043620596247492679410852220359983850670306393322662256232486961325798592165759821"@,
        "5431904924836803914172058287993712865714788953873096810910041945833005800417312386015285236741498469319199765740271"@,
        "1306496017242772172743264447276527112501750362327928440722559572994619766769639623457450192156124916040769111470258706639743561430669385023580621264713531"@,
        "2281220308811097609320585802850145662446614253624279965289596258949637583604338693252956405658685699889321154786797203655344352360687718999126330659861107094125997337180132475041437098767579101"@,
        "252697908391054572799117421345469774591354691874560524506502892530508543928591733438162392467541591869402667175721583754581423928309075337803934872666481782932999857025695043830042417141857167159879947804010079918402116994974115121"@,
        "308208773974777316834938321954665476210798675683182889883680370374451855717140297440376220160579261376115669942382819852769344056844518999959371899569689653644159219223887105646071048248480190862304309611157578985702413599112798317769143641045928117423782520394794222771"@,
    ]
}

/// The published origins of second kind chains, in decimal.
pub fn get_known_second_chain() -> (r: Vec<String>)
    ensures
        texts(r@) == published_second_origins(),
{
    let mut v: Vec<String> = Vec::new();
    v.push("8200568588273131201".to_owned());
    v.push("7119585911130398911".to_owned());
    v.push("10778533281280055611".to_owned());
    v.push("3623684585367099991".to_owned());
    v.push("4611686018428091431".to_owned());
    v.push("861715730411462341".to_owned());
    v.push("1674986350879671961".to_owned());
    v.push("67900120189714574549279004031".to_owned());
    v.push("10101837493672093280040555361".to_owned());
    v.push("72715672387515028471963509301".to_owned());
    v.push("39614081257132168796774190841".to_owned());
    v.push("10649588144161723271997444271".to_owned());
    v.push("41918868722453945727647602591".to_owned());
    v.push("467163544356581123923693233169765411".to_owned());
    v.push("78611250347504386688211060697879905631".to_owned());
    v.push("39313361333713821365071953370171601071".to_owned());
    v.push("296998440399300067472060767080169347567163272451".to_owned());
    v.push("655996338119965871537721549051574508184037198531".to_owned());
    v.push("127047554482172410847857928619907738690147109078632566751".to_owned());
    v.push("22778114142211962207960213784135598105906811222236549595128806545751".to_owned());
    v.push("11477799997239866295941478166154077568792584042185282664607488558757512965001".to_owned());
    v.push("9243036475383693019184249558391683043620596247492679410852220359983850670306393322662256232486961325798592165759821".to_owned());
    v.push("5431904924836803914172058287993712865714788953873096810910041945833005800417312386015285236741498469319199765740271".to_owned());
    v.push("1306496017242772172743264447276527112501750362327928440722559572994619766769639623457450192156124916040769111470258706639743561430669385023580621264713531".to_owned());
    v.push("2281220308811097609320585802850145662446614253624279965289596258949637583604338693252956405658685699889321154786797203655344352360687718999126330659861107094125997337180132475041437098767579101".to_owned());
    v.push("252697908391054572799117421345469774591354691874560524506502892530508543928591733438162392467541591869402667175721583754581423928309075337803934872666481782932999857025695043830042417141857167159879947804010079918402116994974115121".to_owned());
    v.push("308208773974777316834938321954665476210798675683182889883680370374451855717140297440376220160579261376115669942382819852769344056844518999959371899569689653644159219223887105646071048248480190862304309611157578985702413599112798317769143641045928117423782520394794222771".to_owned());
    v
}

/// The published origins of bi-twin chains, in decimal.
pub open spec fn published_bi_twin_origins() -> Seq<Seq<char>> {
    seq![
        "6400306986398717280"@,
        "3355006646840301600"@,
        "15702824270839018740"@,
        "14834106023628140130"@,
        "9223372036882100790"@,
        "40407349974688373120161404540"@,
        "31304362342553789833295320950"@,
        "39305625173752193344105530353982143730"@,
        "392393888434791734846979273737983457731877192100"@,
    ]
}

/// The published origins of bi-twin chains, in decimal.
pub fn get_known_bi_twin_chain() -> (r: Vec<String>)
    ensures
        texts(r@) == published_bi_twin_origins(),
{
    let mut v: Vec<String> = Vec::new();
    v.push("6400306986398717280".to_owned());
    v.push("3355006646840301600".to_owned());
    v.push("15702824270839018740".to_owned());
    v.push("14834106023628140130".to_owned());
    v.push("9223372036882100790".to_owned());
    v.push("40407349974688373120161404540".to_owned());
    v.push("31304362342553789833295320950".to_owned());
    v.push("39305625173752193344105530353982143730".to_owned());
    v.push("392393888434791734846979273737983457731877192100".to_owned());
    v
}

/// The decimal texts of a list of strings.
pub open spec fn texts(v: Seq<String>) -> Seq<Seq<char>> {
    v.map_values(|s: String| s@)
}

/// For each kind, the origins of chains that are already published, written
/// in decimal without leading zeros. It is read-only once built.
pub struct KnownChainRegistry {
    first: Vec<String>,
    second: Vec<String>,
    bi_twin: Vec<String>,
}

impl KnownChainRegistry {
    /// The registered origins of chains of `kind`.
    pub closed spec fn origins(&self, kind: CunninghamKind) -> Seq<Seq<char>> {
        match kind {
            CunninghamKind::FIRST => texts(self.first@),
            CunninghamKind::SECOND => texts(self.second@),
            CunninghamKind::BITWIN => texts(self.bi_twin@),
        }
    }

    /// Whether `origin` is registered for `kind`.
    pub open spec fn knows(&self, kind: CunninghamKind, origin: nat) -> bool {
        self.origins(kind).contains(decimal(origin))
    }

    /// A registry holding the given decimal origins for each kind.
    pub fn new(first: Vec<String>, second: Vec<String>, bi_twin: Vec<String>) -> (r: Self)
        ensures
            r.origins(CunninghamKind::FIRST) == texts(first@),
            r.origins(CunninghamKind::SECOND) == texts(second@),
            r.origins(CunninghamKind::BITWIN) == texts(bi_twin@),
    {
        KnownChainRegistry { first, second, bi_twin }
    }

    /// A registry that knows no chain.
    pub fn empty() -> (r: Self)
        ensures
            forall|k: CunninghamKind| r.origins(k).len() == 0,
    {
        Self::new(Vec::new(), Vec::new(), Vec::new())
    }

    /// The registry of the chains published so far.
    pub fn published() -> (r: Self)
        ensures
            r.origins(CunninghamKind::FIRST) == published_first_origins(),
            r.origins(CunninghamKind::SECOND) == published_second_origins(),
            r.origins(CunninghamKind::BITWIN) == published_bi_twin_origins(),
    {
        Self::new(get_known_first_chain(), get_known_second_chain(), get_known_bi_twin_chain())
    }

    /// Whether a chain of `kind` starting at `origin` is already published.
    pub fn is_known(&self, origin: &BigNat, kind: CunninghamKind) -> (r: bool)
        ensures
            r == self.knows(kind, origin@),
    {
        let text = to_decimal(origin);
        let list = match kind {
            CunninghamKind::FIRST => &self.first,
            CunninghamKind::SECOND => &self.second,
            CunninghamKind::BITWIN => &self.bi_twin,
        };
        let mut i: usize = 0;
        while i < list.len()
            invariant
                i <= list@.len(),
                texts(list@) == self.origins(kind),
                text@ == decimal(origin@),
                forall|j: int| 0 <= j < i ==> list@[j]@ != text@,
            decreases list.len() - i,
        {
            if list[i] == text {
                proof {
                    assert(texts(list@)[i as int] == text@);
                }
                return true;
            }
            i = i + 1;
        }
        proof {
            if texts(list@).contains(text@) {
                let j = choose|j: int| 0 <= j < texts(list@).len() && texts(list@)[j] == text@;
                assert(list@[j]@ == text@);
            }
        }
        false
    }
}

} // verus!
